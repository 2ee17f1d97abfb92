//! Prompt text normalization: NFKC, CJK punctuation folded to ASCII, lowercase, and whitespace
//! collapsed to single spaces.

use unicode_normalization::UnicodeNormalization;
use vstd::prelude::*;

use crate::text::{ascii_lower, chars_vec, collapse_whitespace, collapse_ws, push_str};

verus! {

/// The NFKC normalization of a text (Unicode compatibility composition).
pub uninterp spec fn nfkc_text(s: Seq<char>) -> Seq<char>;

/// The NFKC normalization of `s`, as the `unicode-normalization` crate computes it.
#[verifier::external_body]
fn nfkc(s: &str) -> (r: String)
    ensures
        r@ == nfkc_text(s@),
{
    s.nfkc().collect()
}

/// The full lowercase mapping of one character (one or more characters).
pub uninterp spec fn char_lowercase(c: char) -> Seq<char>;

/// `char::to_lowercase`, collected: the character's lowercase mapping. An ASCII character maps to
/// its ASCII lowercase.
#[verifier::external_body]
pub(crate) fn lowercase_char(c: char) -> (r: String)
    ensures
        r@ == char_lowercase(c),
        (c as u32) < 128 ==> r@ == seq![ascii_lower(c)],
{
    c.to_lowercase().collect()
}

/// CJK and full-width punctuation folded to its ASCII counterpart; anything else unchanged.
pub open spec fn cjk_ascii(c: char) -> char {
    if c == '「' || c == '」' || c == '『' || c == '』' || c == '“' || c == '”' || c == '‘' || c
        == '’' {
        '"'
    } else if c == '、' || c == '，' {
        ','
    } else if c == '。' {
        '.'
    } else if c == '？' {
        '?'
    } else if c == '！' {
        '!'
    } else if c == '：' {
        ':'
    } else if c == '；' {
        ';'
    } else if c == '（' {
        '('
    } else if c == '）' {
        ')'
    } else {
        c
    }
}

/// Folds CJK and full-width punctuation to ASCII.
pub fn map_cjk_punctuation(ch: char) -> (r: char)
    ensures
        r == cjk_ascii(ch),
{
    match ch {
        '「' | '」' | '『' | '』' | '“' | '”' | '‘' | '’' => '"',
        '、' | '，' => ',',
        '。' => '.',
        '？' => '?',
        '！' => '!',
        '：' => ':',
        '；' => ';',
        '（' => '(',
        '）' => ')',
        other => other,
    }
}

/// Every character punctuation-folded, then lowercased, concatenated in order.
pub open spec fn folded_lower(s: Seq<char>) -> Seq<char>
    decreases s.len(),
{
    if s.len() == 0 {
        Seq::empty()
    } else {
        folded_lower(s.drop_last()) + char_lowercase(cjk_ascii(s.last()))
    }
}

/// The normal form of a prompt: NFKC, punctuation folded and lowercased per character, then
/// whitespace runs collapsed to single spaces with none at either end.
pub open spec fn normalized(s: Seq<char>) -> Seq<char> {
    collapse_ws(folded_lower(nfkc_text(s)))
}

/// Normalizes prompt text (see [`normalized`]).
pub fn normalize_text(input: &str) -> (r: String)
    ensures
        r@ == normalized(input@),
{
    let composed = nfkc(input);
    let cs = chars_vec(composed.as_str());
    let mut mapped = String::new();
    let mut i: usize = 0;
    while i < cs.len()
        invariant
            i <= cs.len(),
            cs@ == nfkc_text(input@),
            mapped@ == folded_lower(cs@.take(i as int)),
        decreases cs.len() - i,
    {
        let lower = lowercase_char(map_cjk_punctuation(cs[i]));
        push_str(&mut mapped, lower.as_str());
        proof {
            assert(cs@.take(i as int + 1).drop_last() =~= cs@.take(i as int));
            assert(cs@.take(i as int + 1).last() == cs@[i as int]);
        }
        i += 1;
    }
    assert(cs@.take(cs.len() as int) =~= cs@);
    collapse_whitespace(mapped.as_str())
}

} // verus!
