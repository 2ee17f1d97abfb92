//! Slot extraction: time range, metric, asset and rank limit from normalized prompt text.

use vstd::prelude::*;

use crate::agent::report::ascii_alpha;
use crate::pattern::{first_group, pattern_error, regex_first_group, regex_valid};
use crate::runtime::config::RuntimeConfig;
use crate::runtime::schema::{NormalizedSlots, RuntimeWarning};
use crate::search::{first_where, is_first, lemma_first_where_none, lemma_first_where_some};
use crate::text::{contains, contains_seq, lowercase, parse_u32, str_lowercase, to_owned_string,
    u32_text};

verus! {

/// Extracts slots from prompt text.
pub trait SlotExtractor {
    /// Extracts slots from prompt text into `slots`.
    fn extract(&self, prompt: &str, slots: &mut NormalizedSlots);
}

/// Slot extraction result.
#[derive(Debug, Clone, Default, PartialEq, Eq)]
pub struct SlotExtraction {
    /// Extracted slots.
    pub slots: NormalizedSlots,
    /// Non-fatal extraction warnings.
    pub warnings: Vec<RuntimeWarning>,
}

/// The time-range labels, in the order they are tried.
pub open spec fn time_labels() -> Seq<Seq<char>> {
    seq!["近六個月"@, "近三個月"@, "這個月"@, "本月"@, "去年"@, "今年"@]
}

/// Label `i` occurs in the prompt.
pub open spec fn label_in(p: Seq<char>) -> spec_fn(int) -> bool {
    |i: int| contains_seq(p, time_labels()[i])
}

/// The first time-range label the prompt contains.
pub open spec fn time_range_of(p: Seq<char>) -> Option<Seq<char>> {
    match first_where(6, label_in(p)) {
        Some(i) => Some(time_labels()[i]),
        None => None,
    }
}

/// The six time-range labels: the last six months, the last three months, this month (two
/// spellings), last year and this year.
pub open spec fn six_labels() -> Seq<Seq<char>> {
    seq!["近六個月"@, "近三個月"@, "這個月"@, "本月"@, "去年"@, "今年"@]
}

/// A prompt that names one time-range label and no other has that label as its time range:
/// each of 近六個月, 近三個月, 這個月, 本月, 去年 and 今年 is recognised.
pub proof fn law_a_lone_time_label_is_the_time_range(p: Seq<char>, i: int)
    requires
        0 <= i < 6,
        contains_seq(p, six_labels()[i]),
        forall|j: int| 0 <= j < 6 && j != i ==> !contains_seq(p, #[trigger] six_labels()[j]),
    ensures
        time_range_of(p) == Some(six_labels()[i]),
{
    assert(six_labels() =~= time_labels());
    assert forall|j: int| 0 <= j < i implies !#[trigger] label_in(p)(j) by {
        assert(!contains_seq(p, six_labels()[j]));
    }
    assert(label_in(p)(i));
    lemma_first_where_some(6, label_in(p), i);
}

/// Alias `i` (lowercased) occurs in the prompt.
pub open spec fn alias_in(aliases: Seq<(String, String)>, p: Seq<char>) -> spec_fn(int) -> bool {
    |i: int| contains_seq(p, str_lowercase(aliases[i].0@))
}

/// The metric of the first alias whose lowercase the prompt contains.
pub open spec fn metric_of(aliases: Seq<(String, String)>, p: Seq<char>) -> Option<Seq<char>> {
    match first_where(aliases.len() as int, alias_in(aliases, p)) {
        Some(i) => Some(aliases[i].1@),
        None => None,
    }
}

/// Asset `i` (lowercased) occurs in the prompt.
pub open spec fn asset_in(assets: Seq<String>, p: Seq<char>) -> spec_fn(int) -> bool {
    |i: int| contains_seq(p, str_lowercase(assets[i]@))
}

/// The first allowlisted asset whose lowercase the prompt contains.
pub open spec fn asset_of(assets: Seq<String>, p: Seq<char>) -> Option<Seq<char>> {
    match first_where(assets.len() as int, asset_in(assets, p)) {
        Some(i) => Some(assets[i]@),
        None => None,
    }
}

/// The rank-limit pattern: `top` followed by one to three digits.
pub open spec fn rank_pattern() -> Seq<char> {
    "(?i)\\btop\\s*(\\d{1,3})\\b"@
}

/// The rank limit the prompt asks for: the digits after `top`, parsed as a `u32`.
pub open spec fn rank_of(p: Seq<char>) -> Option<u32> {
    if !regex_valid(rank_pattern()) {
        None
    } else {
        match regex_first_group(rank_pattern(), p) {
            Some(g) => u32_text(g),
            None => None,
        }
    }
}

/// Some character of the prompt is an ASCII letter (an asset-like token).
pub open spec fn has_alpha(p: Seq<char>) -> bool {
    exists|i: int| 0 <= i < p.len() && ascii_alpha(#[trigger] p[i])
}

/// The optional string's view.
pub open spec fn opt_view(o: Option<String>) -> Option<Seq<char>> {
    match o {
        Some(s) => Some(s@),
        None => None,
    }
}

/// The first time-range label `prompt` contains.
pub fn extract_time_range(prompt: &str) -> (r: Option<String>)
    ensures
        opt_view(r) == time_range_of(prompt@),
{
    let labels = ["近六個月", "近三個月", "這個月", "本月", "去年", "今年"];
    assert(labels@.len() == 6);
    let ghost p = prompt@;
    let mut i: usize = 0;
    while i < 6
        invariant
            i <= 6,
            p == prompt@,
            labels@.len() == 6,
            forall|k: int| 0 <= k < 6 ==> (#[trigger] labels@[k])@ == time_labels()[k],
            forall|j: int| 0 <= j < i ==> !#[trigger] label_in(p)(j),
        decreases 6 - i,
    {
        if contains(prompt, labels[i]) {
            proof {
                lemma_first_where_some(6, label_in(p), i as int);
            }
            return Some(to_owned_string(labels[i]));
        }
        i += 1;
    }
    proof {
        lemma_first_where_none(6, label_in(p));
    }
    None
}

/// The rank limit after `top` in `prompt`, if any.
pub fn extract_rank_limit(prompt: &str) -> (r: Option<u32>)
    ensures
        r == rank_of(prompt@),
{
    let pattern = "(?i)\\btop\\s*(\\d{1,3})\\b";
    if pattern_error(pattern).is_some() {
        return None;
    }
    match first_group(pattern, prompt) {
        Some(g) => parse_u32(g.as_str()),
        None => None,
    }
}

/// Whether some character of `prompt` is an ASCII letter.
pub fn has_unknown_asset_hint(prompt: &str) -> (r: bool)
    ensures
        r == has_alpha(prompt@),
{
    for c in it: prompt.chars()
        invariant
            it.seq() == prompt@,
            forall|j: int| 0 <= j < it.index() ==> !ascii_alpha(#[trigger] prompt@[j]),
    {
        if ('a' <= c && c <= 'z') || ('A' <= c && c <= 'Z') {
            assert(prompt@[it.index() as int] == c);
            return true;
        }
    }
    false
}

/// The metric of the first alias whose lowercase `prompt` contains.
fn find_metric(aliases: &Vec<(String, String)>, prompt: &str) -> (r: Option<String>)
    ensures
        opt_view(r) == metric_of(aliases@, prompt@),
{
    let ghost p = prompt@;
    let mut i: usize = 0;
    while i < aliases.len()
        invariant
            i <= aliases.len(),
            p == prompt@,
            forall|j: int| 0 <= j < i ==> !#[trigger] alias_in(aliases@, p)(j),
        decreases aliases.len() - i,
    {
        let alias = lowercase(aliases[i].0.as_str());
        if contains(prompt, alias.as_str()) {
            proof {
                lemma_first_where_some(aliases.len() as int, alias_in(aliases@, p), i as int);
            }
            return Some(aliases[i].1.clone());
        }
        i += 1;
    }
    proof {
        lemma_first_where_none(aliases.len() as int, alias_in(aliases@, p));
    }
    None
}

/// The first allowlisted asset whose lowercase `prompt` contains.
fn find_asset(assets: &Vec<String>, prompt: &str) -> (r: Option<String>)
    ensures
        opt_view(r) == asset_of(assets@, prompt@),
{
    let ghost p = prompt@;
    let mut i: usize = 0;
    while i < assets.len()
        invariant
            i <= assets.len(),
            p == prompt@,
            forall|j: int| 0 <= j < i ==> !#[trigger] asset_in(assets@, p)(j),
        decreases assets.len() - i,
    {
        let lower = lowercase(assets[i].as_str());
        if contains(prompt, lower.as_str()) {
            proof {
                lemma_first_where_some(assets.len() as int, asset_in(assets@, p), i as int);
            }
            return Some(assets[i].clone());
        }
        i += 1;
    }
    proof {
        lemma_first_where_none(assets.len() as int, asset_in(assets@, p));
    }
    None
}

/// Extracts the configured runtime slots from normalized prompt text; an asset-like token that
/// matches no allowlisted asset yields an `unknown_asset` warning.
pub fn extract_slots(cfg: &RuntimeConfig, prompt: &str) -> (r: SlotExtraction)
    ensures
        opt_view(r.slots.time_range) == time_range_of(prompt@),
        opt_view(r.slots.metric) == metric_of(cfg.metric_aliases@, prompt@),
        opt_view(r.slots.asset) == asset_of(cfg.asset_allowlist@, prompt@),
        r.slots.rank_limit == rank_of(prompt@),
        (asset_of(cfg.asset_allowlist@, prompt@) is None && has_alpha(prompt@)) ==> (
        r.warnings@.len() == 1 && r.warnings@[0].code@ == "unknown_asset"@
            && r.warnings@[0].message@
            == "asset-like token is not in runtime asset allowlist"@),
        !(asset_of(cfg.asset_allowlist@, prompt@) is None && has_alpha(prompt@))
            ==> r.warnings@.len() == 0,
{
    let slots = NormalizedSlots {
        time_range: extract_time_range(prompt),
        metric: find_metric(&cfg.metric_aliases, prompt),
        asset: find_asset(&cfg.asset_allowlist, prompt),
        rank_limit: extract_rank_limit(prompt),
    };
    let mut warnings: Vec<RuntimeWarning> = Vec::new();
    if slots.asset.is_none() && has_unknown_asset_hint(prompt) {
        warnings.push(
            RuntimeWarning {
                code: to_owned_string("unknown_asset"),
                message: to_owned_string("asset-like token is not in runtime asset allowlist"),
            },
        );
    }
    SlotExtraction { slots, warnings }
}

} // verus!
