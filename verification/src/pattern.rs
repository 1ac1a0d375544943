//! Compiled regular expressions for resource paths and subject constraints.
//!
//! Regular-expression compilation and matching are done by the `regex` crate.
//! The library keeps, next to each compiled handle, the pattern text it was
//! compiled from; contracts speak of the pattern text alone, through the two
//! uninterpreted functions `regex_compiles` and `regex_match`.

use vstd::prelude::*;

verus! {

/// Whether the `regex` crate compiles this pattern text successfully.
/// Stands for the outcome of `regex::Regex::new`, which is a function of the
/// pattern alone.
pub uninterp spec fn regex_compiles(pattern: Seq<char>) -> bool;

/// Whether this pattern, compiled by the `regex` crate, matches somewhere in
/// this text. Stands for the result of `regex::Regex::is_match`, which is a
/// function of the pattern and the text alone.
pub uninterp spec fn regex_match(pattern: Seq<char>, text: Seq<char>) -> bool;

#[verifier::external_type_specification]
#[verifier::external_body]
pub struct ExRegex(regex::Regex);

/// A regular expression together with the pattern text it was compiled from.
///
/// The fields are private: every value is built by `CompiledRegex::compile`,
/// so the handle always belongs to the pattern the view reports.
pub struct CompiledRegex {
    pattern: String,
    regex: regex::Regex,
}

impl View for CompiledRegex {
    type V = Seq<char>;

    closed spec fn view(&self) -> Seq<char> {
        self.pattern@
    }
}

impl CompiledRegex {
    /// Relies on `regex::Regex::new`: compilation succeeds exactly when the
    /// pattern is a valid expression, deterministically in the pattern.
    #[verifier::external_body]
    pub fn compile(pattern: &str) -> (r: Option<CompiledRegex>)
        ensures
            r is Some <==> regex_compiles(pattern@),
            r is Some ==> r->0@ == pattern@,
    {
        match regex::Regex::new(pattern) {
            Ok(regex) => Some(CompiledRegex { pattern: pattern.to_string(), regex }),
            Err(_) => None,
        }
    }

    /// Relies on `regex::Regex::is_match`: the result is a function of the
    /// compiled pattern and the text alone.
    #[verifier::external_body]
    pub fn is_match(&self, text: &str) -> (r: bool)
        ensures
            r == regex_match(self@, text@),
    {
        self.regex.is_match(text)
    }
}

} // verus!
