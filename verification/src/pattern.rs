//! Regular expressions.

use vstd::prelude::*;

verus! {

/// A compiled expression of the `regex` crate.
#[verifier::external_type_specification]
#[verifier::external_body]
pub struct ExRegex(regex::Regex);

/// Whether the `regex` crate takes a pattern, and if not, what it says of it.
pub uninterp spec fn regex_verdict(pattern: Seq<char>) -> Result<(), Seq<char>>;

/// Whether the `regex` crate finds a match of a pattern anywhere in a text.
pub uninterp spec fn regex_matches(pattern: Seq<char>, text: Seq<char>) -> bool;

/// The pattern that an expression was compiled from.
pub uninterp spec fn regex_source(compiled: regex::Regex) -> Seq<char>;

/// `regex::Regex::new`: compiles a pattern. Whether it does depends on the
/// pattern alone, and the expression remembers the pattern.
#[verifier::external_body]
fn compile(pattern: &str) -> (r: Result<regex::Regex, String>)
    ensures
        match r {
            Ok(compiled) => regex_verdict(pattern@) is Ok && regex_source(compiled) == pattern@,
            Err(message) => regex_verdict(pattern@) == Err::<(), Seq<char>>(message@),
        },
{
    match regex::Regex::new(pattern) {
        Ok(compiled) => Ok(compiled),
        Err(e) => Err(e.to_string()),
    }
}

/// `regex::Regex::is_match`: whether there is a match anywhere in the text,
/// which depends on the pattern and the text alone.
#[verifier::external_body]
fn search(compiled: &regex::Regex, text: &str) -> (r: bool)
    ensures
        r == regex_matches(regex_source(*compiled), text@),
{
    compiled.is_match(text)
}

/// `regex::Regex::clone`: the copy has the same pattern.
#[verifier::external_body]
fn copy(compiled: &regex::Regex) -> (r: regex::Regex)
    ensures
        regex_source(r) == regex_source(*compiled),
{
    compiled.clone()
}

/// A pattern that compiled. Its view is the pattern.
#[derive(Debug)]
pub struct Pattern {
    compiled: regex::Regex,
}

impl View for Pattern {
    type V = Seq<char>;

    closed spec fn view(&self) -> Seq<char> {
        regex_source(self.compiled)
    }
}

impl Clone for Pattern {
    fn clone(&self) -> (r: Self)
        ensures
            r@ == self@,
    {
        Pattern { compiled: copy(&self.compiled) }
    }
}

impl Pattern {
    /// Compiles a pattern, or says why it is not one.
    pub fn new(pattern: &str) -> (r: Result<Pattern, String>)
        ensures
            match r {
                Ok(p) => regex_verdict(pattern@) is Ok && p@ == pattern@,
                Err(message) => regex_verdict(pattern@) == Err::<(), Seq<char>>(message@),
            },
    {
        match compile(pattern) {
            Ok(compiled) => Ok(Pattern { compiled }),
            Err(message) => Err(message),
        }
    }

    /// Whether the pattern matches anywhere in `text`.
    pub fn is_match(&self, text: &str) -> (r: bool)
        ensures
            r == regex_matches(self@, text@),
    {
        search(&self.compiled, text)
    }
}

/// Whether a pattern compiles and matches anywhere in a text.
pub open spec fn recognised(pattern: Seq<char>, text: Seq<char>) -> bool {
    regex_verdict(pattern) is Ok && regex_matches(pattern, text)
}

} // verus!
