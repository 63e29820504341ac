//! Regular expressions, compiled and run by the `regex` crate. A [`Pattern`]
//! keeps the text it was compiled from beside the compiled form, and that
//! text is what contracts speak of.

use vstd::prelude::*;

verus! {

/// Makes `regex::Regex` known as an opaque type: a compiled regex is only
/// carried from `Regex::new` to the calls that run it.
#[verifier::external_type_specification]
#[verifier::external_body]
pub struct ExRegex(regex::Regex);

/// Whether `Regex::new` accepts `source`.
pub uninterp spec fn regex_valid(source: Seq<char>) -> bool;

/// Whether the regex compiled from `source` finds a match anywhere in `text`
/// (`Regex::is_match`). Meaningful for valid sources.
pub uninterp spec fn regex_is_match(source: Seq<char>, text: Seq<char>) -> bool;

/// The successive non-overlapping matches in `text` of the regex compiled
/// from `source`, as `Regex::captures_iter` yields them. Each match lists
/// its capture groups by index, group 0 being the whole match; a group that
/// took no part in the match is `None`. Meaningful for valid sources.
pub uninterp spec fn regex_captures(source: Seq<char>, text: Seq<char>) -> Seq<
    Seq<Option<Seq<char>>>,
>;

/// A compiled regular expression. Its view is the text it was compiled from.
///
/// Both fields are private and only `compile` makes a `Pattern`, so the
/// compiled form always belongs to the text beside it. The contracts of the
/// calls that run the regex rest on that.
pub struct Pattern {
    source: String,
    compiled: regex::Regex,
}

impl View for Pattern {
    type V = Seq<char>;

    closed spec fn view(&self) -> Seq<char> {
        self.source@
    }
}

impl DeepView for Pattern {
    type V = Seq<char>;

    open spec fn deep_view(&self) -> Seq<char> {
        self@
    }
}

/// Calls `Regex::new` and keeps the result together with a copy of
/// `source`. `None` stands for the error that `Regex::new` returns for a
/// text that is no regex or compiles to too large a program.
#[verifier::external_body]
fn compile(source: &str) -> (r: Option<Pattern>)
    ensures
        r is Some <==> regex_valid(source@),
        r matches Some(p) ==> p@ == source@,
{
    match regex::Regex::new(source) {
        Ok(compiled) => Some(Pattern { source: source.to_owned(), compiled }),
        Err(_) => None,
    }
}

/// Calls `Regex::is_match` on the compiled form.
#[verifier::external_body]
fn is_match(pattern: &Pattern, text: &str) -> (r: bool)
    ensures
        r == regex_is_match(pattern@, text@),
{
    pattern.compiled.is_match(text)
}

/// Walks `Regex::captures_iter` over `text` and copies the groups of every
/// match (`Captures::iter`, `Match::as_str`).
#[verifier::external_body]
fn captures(pattern: &Pattern, text: &str) -> (r: Vec<Vec<Option<String>>>)
    ensures
        r.deep_view() == regex_captures(pattern@, text@),
{
    pattern.compiled.captures_iter(text).map(
        |c| c.iter().map(|g| g.map(|m| m.as_str().to_owned())).collect(),
    ).collect()
}

impl Pattern {
    /// Compiles `source`. Returns `None` if it is not a valid regular
    /// expression.
    pub fn new(source: &str) -> (r: Option<Pattern>)
        ensures
            r is Some <==> regex_valid(source@),
            r matches Some(p) ==> p@ == source@,
    {
        compile(source)
    }

    /// The text that the pattern was compiled from.
    pub fn source(&self) -> (r: &str)
        ensures
            r@ == self@,
    {
        self.source.as_str()
    }

    /// Whether the pattern matches anywhere in `text`.
    pub fn matches(&self, text: &str) -> (r: bool)
        ensures
            r == regex_is_match(self@, text@),
    {
        is_match(self, text)
    }

    /// The matches of the pattern in `text`, each with its capture groups.
    pub fn captures(&self, text: &str) -> (r: Vec<Vec<Option<String>>>)
        ensures
            r.deep_view() == regex_captures(self@, text@),
    {
        captures(self, text)
    }
}

/// Whether the optional exclusion pattern `exclude` rules `target` out.
pub open spec fn excluded(exclude: Option<Seq<char>>, target: Seq<char>) -> bool {
    exclude matches Some(source) && regex_is_match(source, target)
}

} // verus!
