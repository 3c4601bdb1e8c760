//! Trusted interface to the regular-expression engine. Whether a pattern
//! compiles, and whether it matches somewhere inside a text, are both
//! functions of the pattern and text characters alone, so they are carried
//! by named, uninterpreted results.

use vstd::prelude::*;

verus! {

#[verifier::external_type_specification]
#[verifier::external_body]
pub struct ExRegex(regex::Regex);

/// Whether a pattern is syntactically valid and compiles within the engine's
/// default limits: a function of the pattern alone.
pub uninterp spec fn pattern_valid(pattern: Seq<char>) -> bool;

/// Whether a valid pattern matches anywhere inside a text: a function of the
/// pattern and the text alone.
pub uninterp spec fn pattern_found(pattern: Seq<char>, text: Seq<char>) -> bool;

/// What `regex::escape` returns: a function of the input characters alone.
pub uninterp spec fn escaped_of(s: Seq<char>) -> Seq<char>;

/// A compiled pattern, kept together with the pattern text it was built from.
pub struct CompiledRegex {
    regex: regex::Regex,
    pattern: String,
}

impl CompiledRegex {
    /// The pattern text this value was compiled from.
    pub closed spec fn spec_pattern(self) -> Seq<char> {
        self.pattern@
    }
}

/// Relies on `regex::Regex::new`: it returns `Ok` exactly when the pattern is
/// a valid expression within the default size limit, which depends on the
/// pattern alone.
#[verifier::external_body]
pub(crate) fn regex_compile(p: &str) -> (r: Option<CompiledRegex>)
    ensures
        r is Some <==> pattern_valid(p@),
        r matches Some(c) ==> c.spec_pattern() == p@,
{
    match regex::Regex::new(p) {
        Ok(re) => Some(CompiledRegex { regex: re, pattern: p.to_owned() }),
        Err(_) => None,
    }
}

/// Relies on `regex::Regex::is_match`: true iff the pattern matches anywhere
/// inside the haystack, a function of the pattern and the haystack alone.
#[verifier::external_body]
pub(crate) fn regex_find(c: &CompiledRegex, text: &str) -> (r: bool)
    ensures
        r == pattern_found(c.spec_pattern(), text@),
{
    c.regex.is_match(text)
}

/// Relies on `regex::escape`: the escaped literal depends on the input
/// characters alone.
#[verifier::external_body]
pub(crate) fn regex_escape(s: &str) -> (r: String)
    ensures
        r@ == escaped_of(s@),
{
    regex::escape(s)
}

} // verus!
