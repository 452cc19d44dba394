use splice::engine::{splice_lines, Splicer};
use splice::options::Options;
use splice::pattern::{is_valid_regex, Pattern};

fn lines(items: &[&str]) -> Vec<String> {
    items.iter().map(|s| s.to_string()).collect()
}

fn run(repeated: bool, input: &[&str]) -> Vec<String> {
    let options = Options::new("START", "STOP", repeated).ok().unwrap();
    options.splice(&lines(input))
}

#[test]
fn no_start_match_gives_no_output() {
    assert!(run(false, &["A", "STOP", "B"]).is_empty());
    assert!(run(true, &["A", "B", "C"]).is_empty());
    assert!(run(false, &[]).is_empty());
}

#[test]
fn single_region_single_shot() {
    assert_eq!(run(false, &["A", "START", "B", "STOP", "C"]), lines(&["START", "B", "STOP"]));
}

#[test]
fn single_shot_halts_before_next_line() {
    let options = Options::new("START", "STOP", false).ok().unwrap();
    let mut splicer = options.splicer();
    for line in ["A", "START", "B"] {
        let step = splicer.process(options.start(), options.stop(), line);
        assert!(!step.halt);
    }
    let step = splicer.process(options.start(), options.stop(), "STOP");
    assert!(step.emit);
    assert!(step.halt);
    assert!(splicer.is_halted());
    assert_eq!(splicer.depth(), 0);
}

#[test]
fn repeated_mode_two_regions() {
    let input = ["A", "START", "B", "STOP", "C", "START", "D", "STOP", "E"];
    assert_eq!(run(true, &input), lines(&["START", "B", "STOP", "START", "D", "STOP"]));
    assert_eq!(run(false, &input), lines(&["START", "B", "STOP"]));
}

#[test]
fn nested_regions() {
    let input = ["START", "START", "X", "STOP", "STOP", "TAIL"];
    assert_eq!(run(false, &input), lines(&["START", "START", "X", "STOP", "STOP"]));

    let mut splicer = Splicer::new(false);
    let start = Pattern::new("START").ok().unwrap();
    let stop = Pattern::new("STOP").ok().unwrap();
    splicer.process(&start, &stop, "START");
    assert_eq!(splicer.depth(), 1);
    splicer.process(&start, &stop, "START");
    assert_eq!(splicer.depth(), 2);
    splicer.process(&start, &stop, "X");
    let step = splicer.process(&start, &stop, "STOP");
    assert!(step.emit && !step.halt);
    assert_eq!(splicer.depth(), 1);
    let step = splicer.process(&start, &stop, "STOP");
    assert!(step.emit && step.halt);
}

#[test]
fn start_and_stop_on_one_line() {
    let start = Pattern::new("START").ok().unwrap();
    let stop = Pattern::new("STOP").ok().unwrap();
    let input = lines(&["A", "START STOP", "B", "START", "C"]);
    assert_eq!(splice_lines(&start, &stop, false, &input), lines(&["START STOP"]));
    assert_eq!(splice_lines(&start, &stop, true, &input), lines(&["START STOP", "START", "C"]));

    let mut splicer = Splicer::new(false);
    let step = splicer.process(&start, &stop, "START STOP");
    assert!(step.emit && step.halt);
}

#[test]
fn start_and_stop_on_one_line_inside_region() {
    let input = ["START", "START STOP", "B", "STOP", "C"];
    assert_eq!(run(false, &input), lines(&["START", "START STOP", "B", "STOP"]));
}

#[test]
fn unterminated_region() {
    assert_eq!(run(false, &["A", "START", "B", "C"]), lines(&["START", "B", "C"]));
    let mut splicer = Splicer::new(false);
    let step = splicer.feed(true, false);
    assert!(step.emit && !step.halt);
    assert!(!splicer.is_halted());
}

#[test]
fn stop_before_any_start_is_ignored() {
    assert_eq!(run(false, &["STOP", "START", "B", "STOP", "C"]), lines(&["START", "B", "STOP"]));
}

#[test]
fn lines_are_emitted_verbatim() {
    assert_eq!(run(false, &["x\n", "START here\n", " b \r\n", "STOP\n", "y\n"]), lines(&["START here\n", " b \r\n", "STOP\n"]));
}

#[test]
fn same_source_same_matches() {
    let a = Pattern::new("^ab+c$").ok().unwrap();
    let b = Pattern::new("^ab+c$").ok().unwrap();
    for line in ["abc", "abbbc", "ac", "xabc", ""] {
        assert_eq!(a.is_match(line), b.is_match(line));
    }
    assert!(a.is_match("abbc"));
    assert!(!a.is_match("ac"));
    assert_eq!(a.as_str(), "^ab+c$");
}

#[test]
fn regex_matching_is_a_search() {
    let p = Pattern::new("b[0-9]").ok().unwrap();
    assert!(p.is_match("ab7c"));
    assert!(!p.is_match("abc"));
}

#[test]
fn invalid_start_pattern_is_rejected() {
    let e = Options::new("foo(bar", "STOP", false).err().unwrap();
    assert_eq!(e.pattern, "foo(bar");
}

#[test]
fn invalid_stop_pattern_is_rejected() {
    let e = Options::new("START", "[a-", true).err().unwrap();
    assert_eq!(e.pattern, "[a-");
}

#[test]
fn first_invalid_pattern_is_reported() {
    let e = Options::new("(", ")", false).err().unwrap();
    assert_eq!(e.pattern, "(");
}

#[test]
fn valid_regex_check() {
    assert!(is_valid_regex("a|b").is_ok());
    let e = is_valid_regex("*").err().unwrap();
    assert_eq!(e.pattern, "*");
}

#[test]
fn options_getters() {
    let options = Options::new("open", "close", true).ok().unwrap();
    assert_eq!(options.start().as_str(), "open");
    assert_eq!(options.stop().as_str(), "close");
    assert!(options.repeated());
    assert!(options.splicer().repeated());
    assert_eq!(options.splicer().depth(), 0);
}
