//! The settings of one run: the two patterns and the mode.

use crate::engine::{spliced, splice_lines, texts, Splicer, SplicerState};
use crate::pattern::{regex_compiles, Pattern, PatternError};
use vstd::prelude::*;

verus! {

/// What an `Options` holds: the text of each pattern and the mode.
pub struct OptionsView {
    pub start: Seq<char>,
    pub stop: Seq<char>,
    pub repeated: bool,
}

/// The settings of one run, fixed once built.
pub struct Options {
    /// The pattern that opens a region.
    start: Pattern,
    /// The pattern that closes a region.
    stop: Pattern,
    /// Whether the run looks for further regions after one has closed.
    repeated: bool,
}

impl View for Options {
    type V = OptionsView;

    closed spec fn view(&self) -> OptionsView {
        OptionsView { start: self.start@, stop: self.stop@, repeated: self.repeated }
    }
}

impl Options {
    /// Compiles the two patterns. Fails on the first of them, start before
    /// stop, that does not compile.
    pub fn new(open_regex: &str, close_regex: &str, repeated: bool) -> (r: Result<Options, PatternError>)
        ensures
            r.is_ok() == (regex_compiles(open_regex@) && regex_compiles(close_regex@)),
            r matches Ok(o) ==> o@ == (OptionsView { start: open_regex@, stop: close_regex@, repeated }),
            r matches Err(e) ==> e.pattern@ == if !regex_compiles(open_regex@) {
                open_regex@
            } else {
                close_regex@
            },
    {
        let start = match Pattern::new(open_regex) {
            Ok(p) => p,
            Err(e) => return Err(e),
        };
        let stop = match Pattern::new(close_regex) {
            Ok(p) => p,
            Err(e) => return Err(e),
        };
        Ok(Options { start, stop, repeated })
    }

    /// The pattern that opens a region.
    pub fn start(&self) -> (r: &Pattern)
        ensures
            r@ == self@.start,
    {
        &self.start
    }

    /// The pattern that closes a region.
    pub fn stop(&self) -> (r: &Pattern)
        ensures
            r@ == self@.stop,
    {
        &self.stop
    }

    /// Whether the run looks for further regions after one has closed.
    pub fn repeated(&self) -> (r: bool)
        ensures
            r == self@.repeated,
    {
        self.repeated
    }

    /// A fresh engine for a run with these settings.
    pub fn splicer(&self) -> (r: Splicer)
        ensures
            r@ == (SplicerState { depth: 0, repeated: self@.repeated, halted: false }),
    {
        Splicer::new(self.repeated)
    }

    /// The lines of `lines` that a run with these settings emits.
    pub fn splice(&self, lines: &Vec<String>) -> (out: Vec<String>)
        ensures
            texts(out@) == spliced(self@.start, self@.stop, self@.repeated, texts(lines@)),
    {
        splice_lines(&self.start, &self.stop, self.repeated, lines)
    }
}

} // verus!
