//! The regular-expression engine the guardrails and sanitizers use, behind trusted wrappers.
//!
//! Every wrapper compiles its pattern with `regex::Regex::new` and then applies one matching
//! operation; what the regex crate computes is named here rather than restated.

use vstd::prelude::*;

verus! {

/// Whether `regex::Regex::new` accepts `pattern`.
pub uninterp spec fn regex_valid(pattern: Seq<char>) -> bool;

/// What `regex::Regex::is_match` answers for `pattern` over `text`.
pub uninterp spec fn regex_is_match(pattern: Seq<char>, text: Seq<char>) -> bool;

/// What `regex::Regex::replace_all` produces for `pattern` over `text` with `replacement`.
pub uninterp spec fn regex_replace_all(
    pattern: Seq<char>,
    text: Seq<char>,
    replacement: Seq<char>,
) -> Seq<char>;

/// Capture group 1 of the leftmost match of `pattern` in `text` (`captures(..)?.get(1)`).
pub uninterp spec fn regex_first_group(pattern: Seq<char>, text: Seq<char>) -> Option<Seq<char>>;

/// Compiles `pattern` with `regex::Regex::new`; `None` when it compiles, else the error's text.
///
/// Trusted: the result is `None` exactly when the regex crate accepts the pattern.
#[verifier::external_body]
pub(crate) fn pattern_error(pattern: &str) -> (r: Option<String>)
    ensures
        r is None <==> regex_valid(pattern@),
{
    regex::Regex::new(pattern).err().map(|e| e.to_string())
}

/// Compiles `pattern` and reports `Regex::is_match` on `text`.
///
/// Trusted: the answer is the regex crate's match decision for this pattern and text.
#[verifier::external_body]
pub(crate) fn is_match(pattern: &str, text: &str) -> (r: bool)
    requires
        regex_valid(pattern@),
    ensures
        r == regex_is_match(pattern@, text@),
{
    regex::Regex::new(pattern).map(|re| re.is_match(text)).unwrap_or(false)
}

/// Compiles `pattern` and returns `Regex::replace_all(text, replacement)`.
///
/// Trusted: the result is the regex crate's replacement of every non-overlapping match
/// (`replacement` may name groups with `$1`).
#[verifier::external_body]
pub(crate) fn replace_all(pattern: &str, text: &str, replacement: &str) -> (r: String)
    requires
        regex_valid(pattern@),
    ensures
        r@ == regex_replace_all(pattern@, text@, replacement@),
{
    match regex::Regex::new(pattern) {
        Ok(re) => re.replace_all(text, replacement).into_owned(),
        Err(_) => text.to_string(),
    }
}

/// Compiles `pattern` and returns capture group 1 of its leftmost match in `text`, if any.
///
/// Trusted: the result is the regex crate's `captures(text)` followed by `get(1)`.
#[verifier::external_body]
pub(crate) fn first_group(pattern: &str, text: &str) -> (r: Option<String>)
    requires
        regex_valid(pattern@),
    ensures
        r is None <==> regex_first_group(pattern@, text@) is None,
        r matches Some(g) ==> regex_first_group(pattern@, text@) == Some(g@),
{
    regex::Regex::new(pattern)
        .ok()
        .and_then(|re| re.captures(text).and_then(|c| c.get(1).map(|m| m.as_str().to_string())))
}

} // verus!
