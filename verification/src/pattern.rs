//! The highlight pattern: a regular expression, compiled once and asked two
//! things of each line, whether it matches and where.

use regex::Regex;
use vstd::prelude::*;
use vstd::utf8::*;

verus! {

/// `regex::Regex`, a compiled regular expression.
#[verifier::external_type_specification]
#[verifier::external_body]
pub struct ExRegex(Regex);

/// `regex::Error`, the reason why a pattern did not compile.
#[verifier::external_type_specification]
#[verifier::external_body]
pub struct ExRegexError(regex::Error);

/// A pattern together with its compiled form.
///
/// A value is only ever made by compiling `source`, so that `regex` is what
/// `Regex::new` builds from that text.
#[derive(Debug)]
pub struct LinePattern {
    source: String,
    regex: Regex,
}

impl View for LinePattern {
    type V = Seq<char>;

    /// The text of the pattern.
    closed spec fn view(&self) -> Seq<char> {
        self.source@
    }
}

/// Why a pattern was refused.
#[derive(Debug, Clone)]
pub struct PatternError {
    /// The compiler's own description of the fault.
    pub message: String,
}

/// Whether the regular expression `pattern` matches anywhere in `haystack`:
/// what `Regex::is_match` returns.
pub uninterp spec fn regex_is_match(pattern: Seq<char>, haystack: Seq<char>) -> bool;

/// The matches of the regular expression `pattern` in `haystack`, as pairs of
/// byte offsets, start and end: what `Regex::find_iter` yields, in its order.
pub uninterp spec fn regex_find_spans(pattern: Seq<char>, haystack: Seq<char>) -> Seq<
    (usize, usize),
>;

/// Whether `spans` can be cut out of `bytes` one after the other: each span runs
/// forward between two character boundaries inside `bytes`, and none begins
/// before the one in front of it has ended.
pub open spec fn spans_well_formed(bytes: Seq<u8>, spans: Seq<(usize, usize)>) -> bool {
    &&& forall|i: int|
        0 <= i < spans.len() ==> {
            &&& (#[trigger] spans[i]).0 <= spans[i].1 <= bytes.len()
            &&& is_char_boundary(bytes, spans[i].0 as int)
            &&& is_char_boundary(bytes, spans[i].1 as int)
        }
    &&& forall|i: int, j: int|
        0 <= i < j < spans.len() ==> (#[trigger] spans[i]).1 <= (#[trigger] spans[j]).0
}

/// `Regex::new`, with the pattern's text kept beside the compiled form. Whether
/// a pattern compiles is left open; one that does carries the text it came from.
#[verifier::external_body]
fn compile(pattern: &str) -> (r: Result<LinePattern, regex::Error>)
    ensures
        r matches Ok(p) ==> p@ == pattern@,
{
    match Regex::new(pattern) {
        Ok(regex) => Ok(LinePattern { source: pattern.to_string(), regex }),
        Err(error) => Err(error),
    }
}

/// The `Display` text of a `regex::Error`. Nothing is claimed of it.
#[verifier::external_body]
fn describe(error: &regex::Error) -> String {
    error.to_string()
}

/// `Regex::is_match` of the compiled form on `line`. The answer is named by the
/// pattern's text and the line, on which alone it depends.
#[verifier::external_body]
fn is_match(pattern: &LinePattern, line: &str) -> (matched: bool)
    ensures
        matched == regex_is_match(pattern@, line@),
{
    pattern.regex.is_match(line)
}

/// `Regex::find_iter` of the compiled form on `line`, each `Match` given as its
/// `start()` and `end()`. The matches are named by the pattern's text and the
/// line. They come in order and do not overlap, and every offset lies within
/// the line on a character boundary, with no start behind its end.
#[verifier::external_body]
fn find_spans(pattern: &LinePattern, line: &str) -> (spans: Vec<(usize, usize)>)
    ensures
        spans@ == regex_find_spans(pattern@, line@),
        spans_well_formed(encode_utf8(line@), spans@),
{
    pattern.regex.find_iter(line).map(|m| (m.start(), m.end())).collect()
}

impl LinePattern {
    /// Compiles `pattern`. A pattern that compiles is kept as it was given; one
    /// that does not is refused with the compiler's description.
    pub fn new(pattern: &str) -> (r: Result<LinePattern, PatternError>)
        ensures
            r matches Ok(p) ==> p@ == pattern@,
    {
        LinePattern::from_compiled(compile(pattern))
    }

    /// Turns the outcome of a compilation into the library's own terms: the
    /// compiled pattern unchanged, or the description of the fault.
    pub fn from_compiled(compiled: Result<LinePattern, regex::Error>) -> (r: Result<
        LinePattern,
        PatternError,
    >)
        ensures
            compiled is Ok <==> r is Ok,
            compiled matches Ok(p) ==> r == Ok::<LinePattern, PatternError>(p),
    {
        match compiled {
            Ok(pattern) => Ok(pattern),
            Err(error) => Err(PatternError { message: describe(&error) }),
        }
    }

    /// The text that the pattern was compiled from.
    pub fn source(&self) -> (text: &str)
        ensures
            text@ == self@,
    {
        self.source.as_str()
    }

    /// Whether the pattern matches anywhere in `line`.
    pub fn matches(&self, line: &str) -> (matched: bool)
        ensures
            matched == regex_is_match(self@, line@),
    {
        is_match(self, line)
    }

    /// Where the pattern matches in `line`: byte offsets, in order.
    pub fn spans(&self, line: &str) -> (spans: Vec<(usize, usize)>)
        ensures
            spans@ == regex_find_spans(self@, line@),
            spans_well_formed(encode_utf8(line@), spans@),
    {
        find_spans(self, line)
    }
}

} // verus!
