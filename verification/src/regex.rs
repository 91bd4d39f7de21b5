//! A validated regular-expression pattern.
//!
//! The pattern source is kept as text; compiling and searching are done
//! by the `regex` crate behind trusted wrappers whose results are named
//! by the two specification functions below.

use vstd::prelude::*;

verus! {

/// Whether the `regex` crate accepts `pattern` under the given
/// case-insensitivity flag; it depends on the pattern and flag alone.
pub uninterp spec fn regex_valid(pattern: Seq<char>, ci: bool) -> bool;

/// Whether the pattern, compiled with the given flag, matches anywhere
/// inside `text`; it depends on the pattern, flag and text alone.
pub uninterp spec fn regex_found(pattern: Seq<char>, ci: bool, text: Seq<char>) -> bool;

/// Relies on `regex::RegexBuilder::build`: whether a pattern compiles
/// depends only on the pattern text and the flags set on the builder.
#[verifier::external_body]
pub(crate) fn regex_compiles(pattern: &str, ci: bool) -> (r: bool)
    ensures
        r == regex_valid(pattern@, ci),
{
    ::regex::RegexBuilder::new(pattern).case_insensitive(ci).build().is_ok()
}

/// Relies on `regex::RegexBuilder::build` and `regex::Regex::is_match`:
/// compilation succeeds exactly when the pattern is accepted, and an
/// unanchored search depends only on pattern, flags and text.
#[verifier::external_body]
pub(crate) fn regex_search(pattern: &str, ci: bool, text: &str) -> (r: Option<bool>)
    ensures
        r is Some == regex_valid(pattern@, ci),
        r matches Some(b) ==> b == regex_found(pattern@, ci, text@),
{
    match ::regex::RegexBuilder::new(pattern).case_insensitive(ci).build() {
        Ok(re) => Some(re.is_match(text)),
        Err(_) => None,
    }
}

/// A regular-expression pattern that compiled successfully in its
/// case-sensitive form.
#[derive(Debug, Clone, PartialEq, Eq)]
pub struct Regex {
    pattern: String,
}

impl View for Regex {
    type V = Seq<char>;

    closed spec fn view(&self) -> Seq<char> {
        self.pattern@
    }
}

impl Regex {
    /// Accept a pattern if the engine compiles it.
    pub fn new(pattern: &str) -> (r: Option<Regex>)
        ensures
            r is Some <==> regex_valid(pattern@, false),
            r matches Some(p) ==> p@ == pattern@,
    {
        if regex_compiles(pattern, false) {
            Some(Regex { pattern: pattern.to_owned() })
        } else {
            None
        }
    }

    /// The pattern source text.
    pub fn as_str(&self) -> (r: &str)
        ensures
            r@ == self@,
    {
        self.pattern.as_str()
    }
}

} // verus!
