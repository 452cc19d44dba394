//! Compiled regular expressions, used only to ask whether a line matches.

use vstd::prelude::*;

verus! {

#[verifier::external_type_specification]
#[verifier::external_body]
pub struct ExRegex(regex::Regex);

#[verifier::external_type_specification]
#[verifier::external_body]
pub struct ExRegexError(regex::Error);

/// Whether `pattern` is accepted by `regex::Regex::new`: valid syntax, and a
/// compiled program within the default size limit.
pub uninterp spec fn regex_compiles(pattern: Seq<char>) -> bool;

/// Whether the regex compiled from `pattern` matches somewhere in `haystack`.
pub uninterp spec fn regex_matches(pattern: Seq<char>, haystack: Seq<char>) -> bool;

/// Relies on `regex::Regex::new`: it succeeds exactly on the patterns that
/// compile, which depends on the pattern text alone.
#[verifier::external_body]
fn compile(source: &str) -> (r: Result<regex::Regex, regex::Error>)
    ensures
        r.is_ok() == regex_compiles(source@),
{
    regex::Regex::new(source)
}

/// A start or stop pattern: its source text together with the regex compiled
/// from it.
pub struct Pattern {
    source: String,
    regex: regex::Regex,
}

/// Relies on `regex::Regex::is_match`: whether the regex matches anywhere in
/// `haystack`, which depends on the pattern and the haystack alone. The regex
/// of a `Pattern` is always the one compiled from its `source` by
/// `Pattern::new`, the only way to build one.
#[verifier::external_body]
fn regex_is_match(pattern: &Pattern, haystack: &str) -> (r: bool)
    ensures
        r == regex_matches(pattern@, haystack@),
{
    pattern.regex.is_match(haystack)
}

impl View for Pattern {
    type V = Seq<char>;

    /// A pattern is known by the text it was compiled from.
    closed spec fn view(&self) -> Seq<char> {
        self.source@
    }
}

/// A pattern whose text does not compile, with the cause given by the regex
/// engine.
pub struct PatternError {
    pub pattern: String,
    pub cause: regex::Error,
}

impl Pattern {
    /// Compiles `source`; fails exactly when it is not a valid pattern.
    pub fn new(source: &str) -> (r: Result<Pattern, PatternError>)
        ensures
            r.is_ok() == regex_compiles(source@),
            r matches Ok(p) ==> p@ == source@,
            r matches Err(e) ==> e.pattern@ == source@,
    {
        match compile(source) {
            Ok(regex) => Ok(Pattern { source: source.to_string(), regex }),
            Err(cause) => Err(PatternError { pattern: source.to_string(), cause }),
        }
    }

    /// The text the pattern was compiled from.
    pub fn as_str(&self) -> (r: &str)
        ensures
            r@ == self@,
    {
        self.source.as_str()
    }

    /// Whether the pattern matches somewhere in `line`.
    pub fn is_match(&self, line: &str) -> (r: bool)
        ensures
            r == regex_matches(self@, line@),
    {
        regex_is_match(self, line)
    }
}

/// Checks that `argument` is a pattern that compiles.
pub fn is_valid_regex(argument: &str) -> (r: Result<(), PatternError>)
    ensures
        r.is_ok() == regex_compiles(argument@),
        r matches Err(e) ==> e.pattern@ == argument@,
{
    match Pattern::new(argument) {
        Ok(_) => Ok(()),
        Err(e) => Err(e),
    }
}

/// Two patterns built from the same text match the same lines: compiling a
/// pattern is deterministic.
pub proof fn lemma_same_source_same_matches(p: Pattern, q: Pattern, line: Seq<char>)
    requires
        p@ == q@,
    ensures
        regex_matches(p@, line) == regex_matches(q@, line),
{
}

} // verus!
