//! Regular expressions compiled once and matched against lines, through the
//! `regex` crate. This module holds nothing but the compiled pattern and the
//! two calls into the crate, so that no other code can put together a
//! pattern whose compiled form differs from its text.

use vstd::prelude::*;

verus! {

#[verifier::external_type_specification]
#[verifier::external_body]
pub struct ExRegex(regex::Regex);

/// Whether `regex::Regex::new` accepts `pattern` (with the default size limits).
pub uninterp spec fn regex_compiles(pattern: Seq<char>) -> bool;

/// Whether the regular expression `pattern` matches somewhere in `haystack`
/// (`regex::Regex::is_match`).
pub uninterp spec fn regex_is_match(pattern: Seq<char>, haystack: Seq<char>) -> bool;

/// A compiled regular expression, kept together with the text it was compiled from.
///
/// Its fields are private to this module, and the only code of this module
/// that builds or changes a `LinePattern` is `compile`, which compiles
/// `compiled` from `source`. Every `LinePattern` there is, anywhere in the
/// crate, therefore holds the compilation of its own text, which is what
/// `is_match` relies on. No code may be added here that writes a field.
pub struct LinePattern {
    source: String,
    compiled: regex::Regex,
}

impl View for LinePattern {
    type V = Seq<char>;

    closed spec fn view(&self) -> Seq<char> {
        self.source@
    }
}

impl LinePattern {
    /// Compiles `source` with `regex::Regex::new`. The result is `Some`
    /// exactly when the crate accepts the pattern; it then remembers `source`.
    #[verifier::external_body]
    pub(crate) fn compile(source: &str) -> (r: Option<LinePattern>)
        ensures
            r is Some <==> regex_compiles(source@),
            r matches Some(p) ==> p@ == source@,
    {
        match regex::Regex::new(source) {
            Ok(compiled) => Some(LinePattern { source: source.to_string(), compiled }),
            Err(_) => None,
        }
    }

    /// `regex::Regex::is_match` of the compiled pattern on `haystack`. A
    /// `LinePattern` is only built by `compile` and never changed, so
    /// `compiled` is the compilation of `source`; the result is the named
    /// match relation of the two.
    #[verifier::external_body]
    pub(crate) fn is_match(&self, haystack: &str) -> (r: bool)
        ensures
            r == regex_is_match(self@, haystack@),
    {
        self.compiled.is_match(haystack)
    }
}

} // verus!
