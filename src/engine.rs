//! The depth-tracking state machine that decides, line by line, which lines
//! of the input lie inside a region and are emitted.
//!
//! For each line, in this order: a start match opens a region (depth + 1);
//! the line is emitted when the depth is then positive; a stop match closes
//! the innermost open region (depth - 1) when one is open; and in single-shot
//! mode the run ends as soon as a close brings the depth back to zero.

use crate::pattern::{regex_matches, Pattern};
use vstd::prelude::*;

verus! {

/// The depth once the start test of a line has been applied.
pub open spec fn opened_depth(depth: nat, is_start: bool) -> nat {
    if is_start {
        depth + 1
    } else {
        depth
    }
}

/// Whether a line is emitted: it is inside a region once its start test has
/// been applied.
pub open spec fn emits(depth: nat, is_start: bool) -> bool {
    opened_depth(depth, is_start) > 0
}

/// Whether a line closes a region: it matches the stop pattern while a region
/// is open.
pub open spec fn closes(depth: nat, is_start: bool, is_stop: bool) -> bool {
    is_stop && opened_depth(depth, is_start) > 0
}

/// The depth after a whole line has been handled.
pub open spec fn next_depth(depth: nat, is_start: bool, is_stop: bool) -> nat {
    if closes(depth, is_start, is_stop) {
        (opened_depth(depth, is_start) - 1) as nat
    } else {
        opened_depth(depth, is_start)
    }
}

/// Whether the run ends after a line: in single-shot mode, a close that
/// brings the depth back to zero.
pub open spec fn halts(depth: nat, is_start: bool, is_stop: bool, repeated: bool) -> bool {
    !repeated && closes(depth, is_start, is_stop) && next_depth(depth, is_start, is_stop) == 0
}

/// The state of a run after some prefix of the input.
pub struct RunState {
    pub depth: nat,
    pub halted: bool,
    pub emitted: Seq<Seq<char>>,
}

/// The state after `lines` has been fed, from depth zero, to a run with the
/// given start and stop patterns and mode. Once the run has halted, further
/// lines are not read.
pub open spec fn run(start: Seq<char>, stop: Seq<char>, repeated: bool, lines: Seq<Seq<char>>) -> RunState
    decreases lines.len(),
{
    if lines.len() == 0 {
        RunState { depth: 0, halted: false, emitted: seq![] }
    } else {
        let prev = run(start, stop, repeated, lines.drop_last());
        let line = lines.last();
        if prev.halted {
            prev
        } else {
            let s = regex_matches(start, line);
            let t = regex_matches(stop, line);
            RunState {
                depth: next_depth(prev.depth, s, t),
                halted: halts(prev.depth, s, t, repeated),
                emitted: if emits(prev.depth, s) {
                    prev.emitted.push(line)
                } else {
                    prev.emitted
                },
            }
        }
    }
}

/// The lines that a run over `lines` emits, in input order.
pub open spec fn spliced(start: Seq<char>, stop: Seq<char>, repeated: bool, lines: Seq<Seq<char>>) -> Seq<Seq<char>> {
    run(start, stop, repeated, lines).emitted
}

/// The text of each line.
pub open spec fn texts(lines: Seq<String>) -> Seq<Seq<char>> {
    lines.map_values(|l: String| l@)
}

/// What to do with the line just fed to a `Splicer`.
pub struct Step {
    /// The line lies inside a region and is written out verbatim.
    pub emit: bool,
    /// The run is over: no further line is to be read.
    pub halt: bool,
}

/// The state of a `Splicer`.
pub struct SplicerState {
    pub depth: nat,
    pub repeated: bool,
    pub halted: bool,
}

/// The engine of one run: the nesting depth of the open regions, the mode,
/// and whether the run is over.
pub struct Splicer {
    depth: u64,
    repeated: bool,
    halted: bool,
}

impl View for Splicer {
    type V = SplicerState;

    closed spec fn view(&self) -> SplicerState {
        SplicerState { depth: self.depth as nat, repeated: self.repeated, halted: self.halted }
    }
}

impl Splicer {
    /// A run that has read nothing yet: outside any region.
    pub fn new(repeated: bool) -> (r: Splicer)
        ensures
            r@ == (SplicerState { depth: 0, repeated, halted: false }),
    {
        Splicer { depth: 0, repeated, halted: false }
    }

    /// The number of regions open.
    pub fn depth(&self) -> (r: u64)
        ensures
            r as nat == self@.depth,
    {
        self.depth
    }

    /// Whether the run goes on after a region has closed.
    pub fn repeated(&self) -> (r: bool)
        ensures
            r == self@.repeated,
    {
        self.repeated
    }

    /// Whether the run is over.
    pub fn is_halted(&self) -> (r: bool)
        ensures
            r == self@.halted,
    {
        self.halted
    }

    /// Handles one line, given whether it matches the start and the stop
    /// pattern.
    pub fn feed(&mut self, is_start: bool, is_stop: bool) -> (r: Step)
        requires
            !old(self)@.halted,
            old(self)@.depth < u64::MAX,
        ensures
            r.emit == emits(old(self)@.depth, is_start),
            r.halt == halts(old(self)@.depth, is_start, is_stop, old(self)@.repeated),
            final(self)@ == (SplicerState {
                depth: next_depth(old(self)@.depth, is_start, is_stop),
                repeated: old(self)@.repeated,
                halted: r.halt,
            }),
    {
        if is_start {
            self.depth = self.depth + 1;
        }
        let emit = self.depth > 0;
        let mut closed = false;
        if is_stop && self.depth > 0 {
            self.depth = self.depth - 1;
            closed = true;
        }
        let halt = closed && self.depth == 0 && !self.repeated;
        self.halted = halt;
        Step { emit, halt }
    }

    /// Handles one line, testing it against the start and stop patterns.
    pub fn process(&mut self, start: &Pattern, stop: &Pattern, line: &str) -> (r: Step)
        requires
            !old(self)@.halted,
            old(self)@.depth < u64::MAX,
        ensures
            ({
                let s = regex_matches(start@, line@);
                let t = regex_matches(stop@, line@);
                &&& r.emit == emits(old(self)@.depth, s)
                &&& r.halt == halts(old(self)@.depth, s, t, old(self)@.repeated)
                &&& final(self)@ == (SplicerState {
                    depth: next_depth(old(self)@.depth, s, t),
                    repeated: old(self)@.repeated,
                    halted: r.halt,
                })
            }),
    {
        let is_start = start.is_match(line);
        let is_stop = stop.is_match(line);
        self.feed(is_start, is_stop)
    }
}

/// While no line has matched the start pattern, the run is outside any region
/// and has emitted nothing.
proof fn lemma_no_start_run(start: Seq<char>, stop: Seq<char>, repeated: bool, lines: Seq<Seq<char>>)
    requires
        forall|j: int| 0 <= j < lines.len() ==> !regex_matches(start, #[trigger] lines[j]),
    ensures
        run(start, stop, repeated, lines) == (RunState { depth: 0, halted: false, emitted: seq![] }),
    decreases lines.len(),
{
    if lines.len() > 0 {
        let prefix = lines.drop_last();
        assert forall|j: int| 0 <= j < prefix.len() implies !regex_matches(start, #[trigger] prefix[j]) by {
            assert(prefix[j] == lines[j]);
        }
        lemma_no_start_run(start, stop, repeated, prefix);
        assert(!regex_matches(start, lines[lines.len() - 1]));
    }
}

/// If no line matches the start pattern, nothing is emitted.
pub proof fn lemma_no_start_no_output(start: Seq<char>, stop: Seq<char>, repeated: bool, lines: Seq<Seq<char>>)
    requires
        forall|j: int| 0 <= j < lines.len() ==> !regex_matches(start, #[trigger] lines[j]),
    ensures
        spliced(start, stop, repeated, lines) == Seq::<Seq<char>>::empty(),
{
    lemma_no_start_run(start, stop, repeated, lines);
}

/// A line that matches both patterns while no region is open is emitted, and
/// closes the region it has just opened: in single-shot mode the run ends
/// right after it, in repeated mode the run goes on outside any region.
pub proof fn lemma_start_and_stop_on_one_line(
    start: Seq<char>,
    stop: Seq<char>,
    repeated: bool,
    lines: Seq<Seq<char>>,
    line: Seq<char>,
)
    requires
        !run(start, stop, repeated, lines).halted,
        run(start, stop, repeated, lines).depth == 0,
        regex_matches(start, line),
        regex_matches(stop, line),
    ensures
        run(start, stop, repeated, lines.push(line)) == (RunState {
            depth: 0,
            halted: !repeated,
            emitted: run(start, stop, repeated, lines).emitted.push(line),
        }),
{
    assert(lines.push(line).drop_last() =~= lines);
}

/// A region that no stop match ever closes runs to the end of the input:
/// every line from the first start match on is emitted, and the run ends
/// only because the input does.
pub proof fn lemma_unterminated_region(
    start: Seq<char>,
    stop: Seq<char>,
    repeated: bool,
    lines: Seq<Seq<char>>,
    first: int,
)
    requires
        0 <= first < lines.len(),
        regex_matches(start, lines[first]),
        forall|j: int| 0 <= j < first ==> !regex_matches(start, #[trigger] lines[j]),
        forall|j: int| 0 <= j < lines.len() ==> !regex_matches(stop, #[trigger] lines[j]),
    ensures
        spliced(start, stop, repeated, lines) == lines.subrange(first, lines.len() as int),
        !run(start, stop, repeated, lines).halted,
        run(start, stop, repeated, lines).depth > 0,
    decreases lines.len(),
{
    let prefix = lines.drop_last();
    let last = lines.len() - 1;
    assert(!regex_matches(stop, lines[last]));
    if first == last {
        assert forall|j: int| 0 <= j < prefix.len() implies !regex_matches(start, #[trigger] prefix[j]) by {
            assert(prefix[j] == lines[j]);
        }
        lemma_no_start_run(start, stop, repeated, prefix);
        assert(lines.subrange(first, lines.len() as int) =~= seq![lines[last]]);
    } else {
        assert forall|j: int| 0 <= j < first implies !regex_matches(start, #[trigger] prefix[j]) by {
            assert(prefix[j] == lines[j]);
        }
        assert forall|j: int| 0 <= j < prefix.len() implies !regex_matches(stop, #[trigger] prefix[j]) by {
            assert(prefix[j] == lines[j]);
        }
        assert(prefix[first] == lines[first]);
        lemma_unterminated_region(start, stop, repeated, prefix, first);
        assert(lines.subrange(first, lines.len() as int) =~= prefix.subrange(first, prefix.len() as int).push(
            lines[last],
        ));
    }
}

/// Once a run has halted on a prefix, the lines after it change nothing:
/// they are neither read nor emitted.
pub proof fn lemma_halted_run_is_final(
    start: Seq<char>,
    stop: Seq<char>,
    repeated: bool,
    lines: Seq<Seq<char>>,
    n: nat,
)
    requires
        n <= lines.len(),
        run(start, stop, repeated, lines.take(n as int)).halted,
    ensures
        run(start, stop, repeated, lines) == run(start, stop, repeated, lines.take(n as int)),
    decreases lines.len() - n,
{
    if n == lines.len() {
        assert(lines.take(n as int) =~= lines);
    } else {
        assert(lines.drop_last().take(n as int) =~= lines.take(n as int));
        lemma_halted_run_is_final(start, stop, repeated, lines.drop_last(), n);
    }
}

/// The lines of `lines` that a run with the given patterns and mode emits.
pub fn splice_lines(start: &Pattern, stop: &Pattern, repeated: bool, lines: &Vec<String>) -> (out: Vec<String>)
    ensures
        texts(out@) == spliced(start@, stop@, repeated, texts(lines@)),
{
    let ghost all = texts(lines@);
    let mut splicer = Splicer::new(repeated);
    let mut out: Vec<String> = Vec::new();
    let mut i: usize = 0;
    while i < lines.len() && !splicer.is_halted()
        invariant
            i <= lines.len(),
            all == texts(lines@),
            splicer@.repeated == repeated,
            splicer@.depth <= i,
            splicer@.depth == run(start@, stop@, repeated, all.take(i as int)).depth,
            splicer@.halted == run(start@, stop@, repeated, all.take(i as int)).halted,
            texts(out@) == run(start@, stop@, repeated, all.take(i as int)).emitted,
        decreases lines.len() - i,
    {
        let line = &lines[i];
        let step = splicer.process(start, stop, line.as_str());
        proof {
            assert(all.take(i + 1).drop_last() =~= all.take(i as int));
            assert(all.take(i + 1).last() == line@);
        }
        if step.emit {
            out.push(line.clone());
        }
        proof {
            assert(texts(out@) =~= run(start@, stop@, repeated, all.take(i + 1)).emitted);
        }
        i = i + 1;
    }
    proof {
        if splicer@.halted {
            lemma_halted_run_is_final(start@, stop@, repeated, all, i as nat);
        } else {
            assert(all.take(i as int) =~= all);
        }
    }
    out
}

} // verus!
