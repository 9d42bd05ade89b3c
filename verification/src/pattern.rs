//! Regular-expression key patterns: a compiled expression kept with the
//! pattern text it was compiled from.

use vstd::prelude::*;

verus! {

#[verifier::external_type_specification]
#[verifier::external_body]
pub struct ExRegex(regex::Regex);

/// Whether `regex::Regex::new` accepts the pattern.
pub uninterp spec fn regex_compiles(pattern: Seq<char>) -> bool;

/// What `regex::Regex::is_match` answers for a regex compiled from
/// `pattern` on the haystack `text`.
pub uninterp spec fn regex_is_match(pattern: Seq<char>, text: Seq<char>) -> bool;

/// A compiled regular expression, kept with the pattern it was compiled
/// from. Only `compile_key_pattern` builds one; its fields are private
/// to this module, so the expression always matches its source.
pub struct KeyPattern {
    source: String,
    re: regex::Regex,
}

impl KeyPattern {
    /// The pattern the expression was compiled from.
    pub closed spec fn source(&self) -> Seq<char> {
        self.source@
    }
}

/// `regex::Regex::new`: compiles `pattern`, or fails on an invalid one.
#[verifier::external_body]
pub(crate) fn compile_key_pattern(pattern: &str) -> (r: Option<KeyPattern>)
    ensures
        r is Some <==> regex_compiles(pattern@),
        r matches Some(p) ==> p.source() == pattern@,
{
    match regex::Regex::new(pattern) {
        Ok(re) => Some(KeyPattern { source: pattern.to_string(), re }),
        Err(_) => None,
    }
}

/// `regex::Regex::is_match`: whether the expression matches anywhere in `text`.
#[verifier::external_body]
pub(crate) fn key_pattern_matches(p: &KeyPattern, text: &str) -> (b: bool)
    ensures
        b == regex_is_match(p.source(), text@),
{
    p.re.is_match(text)
}

} // verus!
