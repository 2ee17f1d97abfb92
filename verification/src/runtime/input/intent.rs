//! Lexicon and option-path intent classification.

use vstd::prelude::*;
use vstd::relations::{sorted_by, total_ordering};
use vstd::seq_lib::group_to_multiset_ensures;

use crate::runtime::config::{ClassifierTuning, MarginTier, RuntimeConfig};
use crate::runtime::schema::{IntentSource, RuntimeWarning};
use crate::search::{first_where, is_first, lemma_first_where_none, lemma_first_where_some,
    lemma_seq_lt_irreflexive, lemma_seq_lt_transitive, lemma_seq_lt_trichotomy, seq_lt, str_lt};
use crate::text::{chars_vec, concat2, contains, contains_seq, lowercase, push_str, str_eq,
    str_lowercase, string_from_range, to_owned_string};

verus! {

/// The fallback intent id required by the runtime contract.
pub open spec fn unknown_intent() -> Seq<char> {
    "unknown"@
}

/// Intent classification result; confidence in ten-thousandths.
#[derive(Debug, Clone, PartialEq)]
pub struct IntentResult {
    /// Intent id.
    pub intent: String,
    /// Confidence, in ten-thousandths.
    pub confidence: u32,
    /// Candidate intent ids.
    pub candidate_intents: Vec<String>,
    /// Classification source.
    pub source: IntentSource,
    /// Non-fatal warnings.
    pub warnings: Vec<RuntimeWarning>,
}

impl Default for IntentResult {
    /// The unknown intent at confidence `0.25`, with no candidates or warnings.
    fn default() -> (r: Self)
        ensures
            r.intent@ == unknown_intent(),
            r.confidence == 2500,
            r.candidate_intents@.len() == 0,
            r.source == IntentSource::Unknown,
            r.warnings@.len() == 0,
    {
        IntentResult {
            intent: to_owned_string("unknown"),
            confidence: 2500,
            candidate_intents: Vec::new(),
            source: IntentSource::Unknown,
            warnings: Vec::new(),
        }
    }
}

/// The weight a matched keyword contributes: long keywords weigh more.
pub open spec fn keyword_weight(t: ClassifierTuning, w: Seq<char>) -> nat {
    if w.len() >= t.keyword_long_chars {
        t.keyword_long_weight as nat
    } else {
        t.keyword_short_weight as nat
    }
}

/// The summed weight of the keywords whose lowercase the prompt contains.
pub open spec fn keywords_score(t: ClassifierTuning, ws: Seq<String>, p: Seq<char>) -> nat
    decreases ws.len(),
{
    if ws.len() == 0 {
        0
    } else {
        keywords_score(t, ws.drop_last(), p) + if contains_seq(p, str_lowercase(ws.last()@)) {
            keyword_weight(t, ws.last()@)
        } else {
            0
        }
    }
}

/// Scoring adds keyword by keyword: one more keyword adds nothing unless the prompt contains its
/// lowercase, and then adds the long weight when the keyword has at least `keyword_long_chars`
/// characters and the short weight otherwise.
pub proof fn law_each_matched_keyword_adds_its_length_weight(
    t: ClassifierTuning,
    ws: Seq<String>,
    w: String,
    p: Seq<char>,
)
    ensures
        !contains_seq(p, str_lowercase(w@)) ==> keywords_score(t, ws.push(w), p) == keywords_score(
            t,
            ws,
            p,
        ),
        contains_seq(p, str_lowercase(w@)) && w@.len() >= t.keyword_long_chars ==> keywords_score(
            t,
            ws.push(w),
            p,
        ) == keywords_score(t, ws, p) + t.keyword_long_weight,
        contains_seq(p, str_lowercase(w@)) && w@.len() < t.keyword_long_chars ==> keywords_score(
            t,
            ws.push(w),
            p,
        ) == keywords_score(t, ws, p) + t.keyword_short_weight,
{
    assert(ws.push(w).drop_last() =~= ws);
    assert(ws.push(w).last() == w);
}

/// An intent with a single keyword that the prompt contains scores the long weight when the
/// keyword has at least `keyword_long_chars` characters, and the short weight otherwise; one
/// whose keywords the prompt never contains scores nothing.
pub proof fn law_a_lone_matched_keyword_scores_its_length_weight(cfg: RuntimeConfig, p: Seq<char>, k: int)
    requires
        0 <= k < cfg.intents@.len(),
    ensures
        cfg.intents@[k].keywords@.len() == 1 && contains_seq(
            p,
            str_lowercase(cfg.intents@[k].keywords@[0]@),
        ) ==> intent_score(cfg, p, k) == if cfg.intents@[k].keywords@[0]@.len()
            >= cfg.thresholds.classifier.keyword_long_chars {
            cfg.thresholds.classifier.keyword_long_weight as nat
        } else {
            cfg.thresholds.classifier.keyword_short_weight as nat
        },
        (forall|j: int|
            0 <= j < cfg.intents@[k].keywords@.len() ==> !contains_seq(
                p,
                str_lowercase(#[trigger] cfg.intents@[k].keywords@[j]@),
            )) ==> intent_score(cfg, p, k) == 0,
{
    let ws = cfg.intents@[k].keywords@;
    let t = cfg.thresholds.classifier;
    if ws.len() == 1 {
        assert(ws.drop_last() =~= Seq::<String>::empty());
        law_each_matched_keyword_adds_its_length_weight(t, Seq::<String>::empty(), ws[0], p);
        assert(Seq::<String>::empty().push(ws[0]) =~= ws);
    }
    if forall|j: int| 0 <= j < ws.len() ==> !contains_seq(p, str_lowercase(#[trigger] ws[j]@)) {
        lemma_unmatched_scores_nothing(t, ws, p);
    }
}

proof fn lemma_unmatched_scores_nothing(t: ClassifierTuning, ws: Seq<String>, p: Seq<char>)
    requires
        forall|j: int| 0 <= j < ws.len() ==> !contains_seq(p, str_lowercase(#[trigger] ws[j]@)),
    ensures
        keywords_score(t, ws, p) == 0,
    decreases ws.len(),
{
    if ws.len() > 0 {
        let d = ws.drop_last();
        assert forall|j: int| 0 <= j < d.len() implies !contains_seq(p, str_lowercase(#[trigger] d[j]@)) by {
            assert(d[j] == ws[j]);
        }
        lemma_unmatched_scores_nothing(t, d, p);
        assert(ws.last() == ws[ws.len() - 1]);
    }
}

/// The lexicon score of intent `k` for prompt `p`.
pub open spec fn intent_score(cfg: RuntimeConfig, p: Seq<char>, k: int) -> nat {
    keywords_score(cfg.thresholds.classifier, cfg.intents@[k].keywords@, p)
}

/// Every intent's score fits in a `u32` (the sum never overflows).
pub open spec fn scores_fit(cfg: RuntimeConfig, p: Seq<char>) -> bool {
    forall|k: int| 0 <= k < cfg.intents@.len() ==> #[trigger] intent_score(cfg, p, k) <= u32::MAX
}

/// The `(intent id, score)` table, in configured order.
pub open spec fn score_table(cfg: RuntimeConfig, p: Seq<char>) -> Seq<(Seq<char>, u32)> {
    Seq::new(cfg.intents@.len(), |k: int| (cfg.intents@[k].id@, intent_score(cfg, p, k) as u32))
}

/// Ranking order: higher score first, ties by ascending id.
pub open spec fn rank_leq(a: (Seq<char>, u32), b: (Seq<char>, u32)) -> bool {
    a.1 > b.1 || (a.1 == b.1 && !seq_lt(b.0, a.0))
}

/// The ranking order as a relation.
pub open spec fn rank_order() -> spec_fn((Seq<char>, u32), (Seq<char>, u32)) -> bool {
    |a: (Seq<char>, u32), b: (Seq<char>, u32)| rank_leq(a, b)
}

/// The score table sorted by the ranking order.
pub open spec fn ranking(cfg: RuntimeConfig, p: Seq<char>) -> Seq<(Seq<char>, u32)> {
    score_table(cfg, p).sort_by(rank_order())
}

/// The ids of the ranked entries with a positive score, in rank order.
pub open spec fn positive_ids(r: Seq<(Seq<char>, u32)>) -> Seq<Seq<char>>
    decreases r.len(),
{
    if r.len() == 0 {
        Seq::empty()
    } else if r.last().1 > 0 {
        positive_ids(r.drop_last()).push(r.last().0)
    } else {
        positive_ids(r.drop_last())
    }
}

/// Tier `i` admits the margin.
pub open spec fn tier_admits(tiers: Seq<MarginTier>, margin: nat) -> spec_fn(int) -> bool {
    |i: int| margin >= tiers[i].min_margin
}

/// The confidence of the first tier whose minimum margin the margin reaches, else the ambiguous
/// confidence.
pub open spec fn margin_confidence(t: ClassifierTuning, margin: nat) -> u32 {
    match first_where(t.margin_tiers@.len() as int, tier_admits(t.margin_tiers@, margin)) {
        Some(i) => t.margin_tiers@[i].confidence,
        None => t.ambiguous_confidence,
    }
}

/// What the lexicon classifier decides: `(intent, confidence, candidates, source)`.
pub open spec fn lexicon_decision(cfg: RuntimeConfig, p: Seq<char>) -> (
    Seq<char>,
    u32,
    Seq<Seq<char>>,
    IntentSource,
) {
    let r = ranking(cfg, p);
    let t = cfg.thresholds.classifier;
    if cfg.intents@.len() == 0 {
        (unknown_intent(), 2500u32, Seq::empty(), IntentSource::Unknown)
    } else if r[0].1 == 0 {
        (unknown_intent(), t.unknown_confidence, Seq::empty(), IntentSource::Unknown)
    } else {
        let second: nat = if r.len() > 1 {
            r[1].1 as nat
        } else {
            0
        };
        let margin: nat = if r[0].1 >= second {
            (r[0].1 - second) as nat
        } else {
            0
        };
        (r[0].0, margin_confidence(t, margin), positive_ids(r), IntentSource::RuleLexicon)
    }
}

/// The views of a list of strings.
pub open spec fn str_views(v: Seq<String>) -> Seq<Seq<char>> {
    v.map_values(|s: String| s@)
}

/// The view of a score entry.
pub open spec fn entry_view(e: (String, u32)) -> (Seq<char>, u32) {
    (e.0@, e.1)
}

/// The views of a score table.
pub open spec fn entries_view(v: Seq<(String, u32)>) -> Seq<(Seq<char>, u32)> {
    v.map_values(|e: (String, u32)| entry_view(e))
}

/// The ranking order is a total order.
pub proof fn lemma_rank_total()
    ensures
        total_ordering(rank_order()),
{
    assert forall|a: (Seq<char>, u32)| #[trigger] rank_order()(a, a) by {
        lemma_seq_lt_irreflexive(a.0);
    }
    assert forall|a: (Seq<char>, u32), b: (Seq<char>, u32)|
        #[trigger] rank_order()(a, b) && #[trigger] rank_order()(b, a) implies a == b by {
        lemma_seq_lt_trichotomy(a.0, b.0);
    }
    assert forall|a: (Seq<char>, u32), b: (Seq<char>, u32), c: (Seq<char>, u32)|
        #[trigger] rank_order()(a, b) && #[trigger] rank_order()(b, c) implies rank_order()(
        a,
        c,
    ) by {
        if a.1 == b.1 && b.1 == c.1 {
            lemma_seq_lt_trichotomy(a.0, b.0);
            lemma_seq_lt_trichotomy(b.0, c.0);
            lemma_seq_lt_trichotomy(a.0, c.0);
            if seq_lt(c.0, a.0) {
                if seq_lt(c.0, b.0) {
                } else if b.0 == c.0 {
                } else {
                    lemma_seq_lt_transitive(b.0, c.0, a.0);
                }
            }
        }
    }
    assert forall|a: (Seq<char>, u32), b: (Seq<char>, u32)|
        #[trigger] rank_order()(a, b) || #[trigger] rank_order()(b, a) by {
        lemma_seq_lt_trichotomy(a.0, b.0);
    }
}

/// A prefix of the keywords scores no more than all of them.
proof fn lemma_keywords_score_prefix(t: ClassifierTuning, ws: Seq<String>, p: Seq<char>, j: int)
    requires
        0 <= j <= ws.len(),
    ensures
        keywords_score(t, ws.take(j), p) <= keywords_score(t, ws, p),
    decreases ws.len(),
{
    if j < ws.len() {
        assert(ws.drop_last().take(j) =~= ws.take(j));
        lemma_keywords_score_prefix(t, ws.drop_last(), p, j);
    } else {
        assert(ws.take(j) =~= ws);
    }
}

/// The lexicon score of one intent's keywords.
fn score_keywords(t: &ClassifierTuning, ws: &Vec<String>, prompt: &str) -> (r: u32)
    requires
        keywords_score(*t, ws@, prompt@) <= u32::MAX,
    ensures
        r == keywords_score(*t, ws@, prompt@),
{
    let mut acc: u32 = 0;
    let mut j: usize = 0;
    while j < ws.len()
        invariant
            j <= ws.len(),
            acc == keywords_score(*t, ws@.take(j as int), prompt@),
            keywords_score(*t, ws@, prompt@) <= u32::MAX,
        decreases ws.len() - j,
    {
        proof {
            assert(ws@.take(j as int + 1).drop_last() =~= ws@.take(j as int));
            assert(ws@.take(j as int + 1).last() == ws@[j as int]);
            lemma_keywords_score_prefix(*t, ws@, prompt@, j as int + 1);
        }
        let lower = lowercase(ws[j].as_str());
        if contains(prompt, lower.as_str()) {
            let n = chars_vec(ws[j].as_str()).len();
            let w = if n >= t.keyword_long_chars {
                t.keyword_long_weight
            } else {
                t.keyword_short_weight
            };
            acc = acc + w;
        }
        j += 1;
    }
    assert(ws@.take(ws.len() as int) =~= ws@);
    acc
}

/// Whether entry `a` ranks no later than entry `b`.
fn rank_le(a: &(String, u32), b: &(String, u32)) -> (r: bool)
    ensures
        r == rank_leq(entry_view(*a), entry_view(*b)),
{
    a.1 > b.1 || (a.1 == b.1 && !str_lt(b.0.as_str(), a.0.as_str()))
}

/// Sorts score entries by the ranking order (insertion sort).
fn rank_entries(scores: Vec<(String, u32)>) -> (r: Vec<(String, u32)>)
    ensures
        entries_view(r@) == entries_view(scores@).sort_by(rank_order()),
{
    broadcast use group_to_multiset_ensures;

    let ghost src = entries_view(scores@);
    let mut ranked: Vec<(String, u32)> = Vec::new();
    let mut i: usize = 0;
    proof {
        lemma_rank_total();
    }
    assert(entries_view(ranked@) =~= Seq::<(Seq<char>, u32)>::empty());
    assert(src.take(0) =~= Seq::<(Seq<char>, u32)>::empty());
    while i < scores.len()
        invariant
            i <= scores.len(),
            src == entries_view(scores@),
            total_ordering(rank_order()),
            sorted_by(entries_view(ranked@), rank_order()),
            entries_view(ranked@).to_multiset() == src.take(i as int).to_multiset(),
        decreases scores.len() - i,
    {
        let x = (scores[i].0.clone(), scores[i].1);
        let ghost xv = entry_view(x);
        assert(xv == src[i as int]);
        let mut pos: usize = 0;
        while pos < ranked.len()
            invariant
                pos <= ranked.len(),
                xv == entry_view(x),
                forall|j: int| 0 <= j < pos ==> !rank_leq(xv, #[trigger] entries_view(ranked@)[j]),
            ensures
                pos <= ranked.len(),
                forall|j: int| 0 <= j < pos ==> !rank_leq(xv, #[trigger] entries_view(ranked@)[j]),
                pos < ranked.len() ==> rank_leq(xv, entries_view(ranked@)[pos as int]),
            decreases ranked.len() - pos,
        {
            if rank_le(&x, &ranked[pos]) {
                break;
            }
            pos += 1;
        }
        let ghost before = entries_view(ranked@);
        ranked.insert(pos, x);
        proof {
            let after = entries_view(ranked@);
            assert(after =~= before.insert(pos as int, xv));
            assert forall|a: int, b: int| 0 <= a < b < after.len() implies #[trigger] rank_order()(
                after[a],
                after[b],
            ) by {
                if b < pos {
                    assert(rank_order()(before[a], before[b]));
                } else if a < pos && b == pos {
                    assert(!rank_leq(xv, before[a]));
                    assert(rank_order()(before[a], xv) || rank_order()(xv, before[a]));
                    assert(after[b] == xv);
                    assert(after[a] == before[a]);
                } else if a < pos && b > pos {
                    assert(after[a] == before[a]);
                    assert(after[b] == before[b - 1]);
                    assert(rank_order()(before[a], before[b - 1]));
                } else if a == pos {
                    assert(pos < before.len());
                    assert(rank_leq(xv, before[pos as int]));
                    assert(rank_order()(xv, before[pos as int]));
                    assert(after[a] == xv);
                    assert(after[b] == before[b - 1]);
                    if b - 1 > pos {
                        assert(rank_order()(before[pos as int], before[b - 1]));
                    }
                } else {
                    assert(after[a] == before[a - 1]);
                    assert(after[b] == before[b - 1]);
                    assert(rank_order()(before[a - 1], before[b - 1]));
                }
            }
            assert(src.take(i as int + 1) =~= src.take(i as int).push(xv));
            vstd::seq_lib::to_multiset_insert(before, pos as int, xv);
            vstd::seq_lib::to_multiset_build(src.take(i as int), xv);
            assert(after.to_multiset() == before.to_multiset().insert(xv));
            assert(src.take(i as int + 1).to_multiset() == src.take(i as int).to_multiset().insert(
                xv,
            ));
        }
        i += 1;
    }
    proof {
        assert(src.take(scores.len() as int) =~= src);
        src.lemma_sort_by_ensures(rank_order());
        vstd::seq_lib::lemma_sorted_unique(
            entries_view(ranked@),
            src.sort_by(rank_order()),
            rank_order(),
        );
    }
    ranked
}


/// The confidence of the first margin tier the margin reaches, else the ambiguous confidence.
fn tier_confidence(t: &ClassifierTuning, margin: u32) -> (r: u32)
    ensures
        r == margin_confidence(*t, margin as nat),
{
    let ghost tiers = t.margin_tiers@;
    let mut i: usize = 0;
    while i < t.margin_tiers.len()
        invariant
            i <= t.margin_tiers.len(),
            tiers == t.margin_tiers@,
            forall|j: int| 0 <= j < i ==> !#[trigger] tier_admits(tiers, margin as nat)(j),
        decreases t.margin_tiers.len() - i,
    {
        if margin >= t.margin_tiers[i].min_margin {
            proof {
                lemma_first_where_some(tiers.len() as int, tier_admits(tiers, margin as nat), i as int);
            }
            return t.margin_tiers[i].confidence;
        }
        i += 1;
    }
    proof {
        lemma_first_where_none(tiers.len() as int, tier_admits(tiers, margin as nat));
    }
    t.ambiguous_confidence
}

/// Classifies normalized prompt text by keyword lexicon: every intent scores the weights of the
/// keywords the prompt contains; the best score wins (ties to the smaller id) with a confidence
/// from the margin over the runner-up (see [`lexicon_decision`]).
pub fn classify_by_lexicon(cfg: &RuntimeConfig, prompt: &str) -> (r: IntentResult)
    requires
        scores_fit(*cfg, prompt@),
    ensures
        ({
            let d = lexicon_decision(*cfg, prompt@);
            &&& r.intent@ == d.0
            &&& r.confidence == d.1
            &&& str_views(r.candidate_intents@) == d.2
            &&& r.source == d.3
            &&& r.warnings@.len() == 0
        }),
{
    let ghost table = score_table(*cfg, prompt@);
    let mut scores: Vec<(String, u32)> = Vec::new();
    let mut k: usize = 0;
    while k < cfg.intents.len()
        invariant
            k <= cfg.intents.len(),
            table == score_table(*cfg, prompt@),
            scores_fit(*cfg, prompt@),
            entries_view(scores@) == table.take(k as int),
        decreases cfg.intents.len() - k,
    {
        proof {
            assert(intent_score(*cfg, prompt@, k as int) <= u32::MAX);
        }
        let sc = score_keywords(&cfg.thresholds.classifier, &cfg.intents[k].keywords, prompt);
        let id = cfg.intents[k].id.clone();
        assert(table[k as int] == (id@, sc));
        let ghost old_v = entries_view(scores@);
        scores.push((id, sc));
        assert(entries_view(scores@) =~= old_v.push((table[k as int].0, sc)));
        assert(entries_view(scores@) =~= table.take(k as int + 1));
        k += 1;
    }
    assert(table.take(cfg.intents.len() as int) =~= table);
    let ranked = rank_entries(scores);
    let ghost rv = entries_view(ranked@);
    proof {
        lemma_rank_total();
        table.lemma_sort_by_ensures(rank_order());
        vstd::seq_lib::to_multiset_len(table);
        vstd::seq_lib::to_multiset_len(rv);
        assert(rv == ranking(*cfg, prompt@));
    }
    if cfg.intents.len() == 0 {
        return IntentResult::default();
    }
    assert(ranked@.len() == cfg.intents@.len());
    let top = ranked[0].1;
    if top == 0 {
        let mut r = IntentResult::default();
        r.confidence = cfg.thresholds.classifier.unknown_confidence;
        return r;
    }
    let second: u32 = if ranked.len() > 1 {
        ranked[1].1
    } else {
        0
    };
    let margin: u32 = if top >= second {
        top - second
    } else {
        0
    };
    let confidence = tier_confidence(&cfg.thresholds.classifier, margin);
    let mut candidates: Vec<String> = Vec::new();
    let mut j: usize = 0;
    while j < ranked.len()
        invariant
            j <= ranked.len(),
            rv == entries_view(ranked@),
            str_views(candidates@) == positive_ids(rv.take(j as int)),
        decreases ranked.len() - j,
    {
        proof {
            assert(rv.take(j as int + 1).drop_last() =~= rv.take(j as int));
            assert(rv.take(j as int + 1).last() == rv[j as int]);
        }
        if ranked[j].1 > 0 {
            candidates.push(ranked[j].0.clone());
            assert(str_views(candidates@) =~= positive_ids(rv.take(j as int + 1)));
        }
        j += 1;
    }
    assert(rv.take(ranked.len() as int) =~= rv);
    IntentResult {
        intent: ranked[0].0.clone(),
        confidence,
        candidate_intents: candidates,
        source: IntentSource::RuleLexicon,
        warnings: Vec::new(),
    }
}

/// A character that ends an option id's prefix.
pub open spec fn is_option_sep(c: char) -> bool {
    c == '.' || c == ':' || c == '/' || c == '_' || c == '-'
}

/// Character `i` ends the prefix.
pub open spec fn sep_at(s: Seq<char>) -> spec_fn(int) -> bool {
    |i: int| is_option_sep(s[i])
}

/// The prefix of an option id: the text before its first separator, if that is not empty.
pub open spec fn option_prefix_of(s: Seq<char>) -> Option<Seq<char>> {
    let n = match first_where(s.len() as int, sep_at(s)) {
        Some(i) => i,
        None => s.len() as int,
    };
    if n > 0 {
        Some(s.take(n))
    } else {
        None
    }
}

/// The prefix of an option id (split on `.`, `:`, `/`, `_` or `-`), if not empty.
pub fn option_prefix(option_id: &str) -> (r: Option<String>)
    ensures
        match r {
            Some(p) => option_prefix_of(option_id@) == Some(p@),
            None => option_prefix_of(option_id@) is None,
        },
{
    let cs = chars_vec(option_id);
    let ghost s = option_id@;
    let mut i: usize = 0;
    while i < cs.len()
        invariant
            i <= cs.len(),
            cs@ == s,
            s == option_id@,
            forall|j: int| 0 <= j < i ==> !#[trigger] sep_at(s)(j),
        ensures
            i <= cs.len(),
            forall|j: int| 0 <= j < i ==> !#[trigger] sep_at(s)(j),
            i < cs.len() ==> sep_at(s)(i as int),
        decreases cs.len() - i,
    {
        let c = cs[i];
        if c == '.' || c == ':' || c == '/' || c == '_' || c == '-' {
            break;
        }
        i += 1;
    }
    proof {
        if i < cs.len() {
            lemma_first_where_some(s.len() as int, sep_at(s), i as int);
        } else {
            lemma_first_where_none(s.len() as int, sep_at(s));
        }
    }
    if i == 0 {
        None
    } else {
        let p = string_from_range(&cs, 0, i);
        assert(p@ =~= s.take(i as int));
        Some(p)
    }
}

/// Row `i` of a key-ordered table has key `key`.
pub open spec fn key_at(table: Seq<(String, String)>, key: Seq<char>) -> spec_fn(int) -> bool {
    |i: int| table[i].0@ == key
}

/// The value of the first row of `table` with key `key`.
pub open spec fn table_lookup(table: Seq<(String, String)>, key: Seq<char>) -> Option<Seq<char>> {
    match first_where(table.len() as int, key_at(table, key)) {
        Some(i) => Some(table[i].1@),
        None => None,
    }
}

/// Looks up `key` in a key-ordered table.
fn lookup(table: &Vec<(String, String)>, key: &str) -> (r: Option<String>)
    ensures
        match r {
            Some(v) => table_lookup(table@, key@) == Some(v@),
            None => table_lookup(table@, key@) is None,
        },
{
    let mut i: usize = 0;
    while i < table.len()
        invariant
            i <= table.len(),
            forall|j: int| 0 <= j < i ==> !#[trigger] key_at(table@, key@)(j),
        decreases table.len() - i,
    {
        if str_eq(table[i].0.as_str(), key) {
            proof {
                lemma_first_where_some(table@.len() as int, key_at(table@, key@), i as int);
            }
            return Some(table[i].1.clone());
        }
        i += 1;
    }
    proof {
        lemma_first_where_none(table@.len() as int, key_at(table@, key@));
    }
    None
}

/// The option path's intent: the configured intent of the option id's prefix.
pub open spec fn option_intent_of(cfg: RuntimeConfig, option_id: Option<Seq<char>>) -> Option<
    Seq<char>,
> {
    match option_id {
        Some(id) => match option_prefix_of(id) {
            Some(pre) => table_lookup(cfg.option_prefixes@, pre),
            None => None,
        },
        None => None,
    }
}

/// The prefix of an option id that has no configured intent, if any.
pub open spec fn unknown_prefix_of(cfg: RuntimeConfig, option_id: Option<Seq<char>>) -> Option<
    Seq<char>,
> {
    match option_id {
        Some(id) => match option_prefix_of(id) {
            Some(pre) => if table_lookup(cfg.option_prefixes@, pre) is None {
                Some(pre)
            } else {
                None
            },
            None => None,
        },
        None => None,
    }
}

/// The final intent decision `(intent, confidence, candidates, source)`: a confident lexicon
/// result that disagrees with the option path overrides it; otherwise the option path wins when
/// present; otherwise the lexicon result stands.
pub open spec fn intent_decision(cfg: RuntimeConfig, p: Seq<char>, option_id: Option<Seq<char>>) -> (
    Seq<char>,
    u32,
    Seq<Seq<char>>,
    IntentSource,
) {
    let d = lexicon_decision(cfg, p);
    let t = cfg.thresholds.classifier;
    match option_intent_of(cfg, option_id) {
        Some(oi) => if d.0 != unknown_intent() && d.1 >= t.text_override_confidence && d.0 != oi {
            (d.0, d.1, seq![oi, d.0], IntentSource::TextOverride)
        } else {
            (oi, t.option_match_confidence, seq![oi], IntentSource::OptionPath)
        },
        None => d,
    }
}

/// Classifies intent from normalized prompt text and an optional option id; an option id whose
/// prefix has no configured intent yields an `unknown_option_prefix` warning.
pub fn classify_intent(cfg: &RuntimeConfig, prompt: &str, option_id: Option<&str>) -> (r:
    IntentResult)
    requires
        scores_fit(*cfg, prompt@),
    ensures
        ({
            let oid = match option_id {
                Some(o) => Some(o@),
                None => None,
            };
            let d = intent_decision(*cfg, prompt@, oid);
            &&& r.intent@ == d.0
            &&& r.confidence == d.1
            &&& str_views(r.candidate_intents@) == d.2
            &&& r.source == d.3
            &&& match unknown_prefix_of(*cfg, oid) {
                Some(pre) => r.warnings@.len() == 1 && r.warnings@[0].code@
                    == "unknown_option_prefix"@ && r.warnings@[0].message@ == "unknown option prefix `"@
                    + pre + "`"@,
                None => r.warnings@.len() == 0,
            }
        }),
{
    let mut warnings: Vec<RuntimeWarning> = Vec::new();
    let option_intent: Option<String> = match option_id {
        None => None,
        Some(id) => match option_prefix(id) {
            None => None,
            Some(prefix) => match lookup(&cfg.option_prefixes, prefix.as_str()) {
                Some(intent) => Some(intent),
                None => {
                    let mut message = concat2("unknown option prefix `", prefix.as_str());
                    push_str(&mut message, "`");
                    warnings.push(
                        RuntimeWarning {
                            code: to_owned_string("unknown_option_prefix"),
                            message,
                        },
                    );
                    None
                },
            },
        },
    };
    let text_result = classify_by_lexicon(cfg, prompt);
    match option_intent {
        Some(oi) => {
            if !str_eq(text_result.intent.as_str(), "unknown") && text_result.confidence
                >= cfg.thresholds.classifier.text_override_confidence && !str_eq(
                text_result.intent.as_str(),
                oi.as_str(),
            ) {
                let candidates = vec![oi, text_result.intent.clone()];
                assert(str_views(candidates@) =~= seq![candidates@[0]@, text_result.intent@]);
                IntentResult {
                    intent: text_result.intent,
                    confidence: text_result.confidence,
                    candidate_intents: candidates,
                    source: IntentSource::TextOverride,
                    warnings,
                }
            } else {
                let intent = oi.clone();
                let candidates = vec![oi];
                assert(str_views(candidates@) =~= seq![intent@]);
                IntentResult {
                    intent,
                    confidence: cfg.thresholds.classifier.option_match_confidence,
                    candidate_intents: candidates,
                    source: IntentSource::OptionPath,
                    warnings,
                }
            }
        },
        None => IntentResult {
            intent: text_result.intent,
            confidence: text_result.confidence,
            candidate_intents: text_result.candidate_intents,
            source: text_result.source,
            warnings,
        },
    }
}


/// Whether one intent's keyword score fits in a `u32`.
fn keywords_fit(t: &ClassifierTuning, ws: &Vec<String>, prompt: &str) -> (r: bool)
    ensures
        r == (keywords_score(*t, ws@, prompt@) <= u32::MAX),
{
    let mut acc: u64 = 0;
    let mut j: usize = 0;
    while j < ws.len()
        invariant
            j <= ws.len(),
            acc == keywords_score(*t, ws@.take(j as int), prompt@),
            acc <= u32::MAX,
        decreases ws.len() - j,
    {
        proof {
            assert(ws@.take(j as int + 1).drop_last() =~= ws@.take(j as int));
            assert(ws@.take(j as int + 1).last() == ws@[j as int]);
        }
        let lower = lowercase(ws[j].as_str());
        if contains(prompt, lower.as_str()) {
            let n = chars_vec(ws[j].as_str()).len();
            let w = if n >= t.keyword_long_chars {
                t.keyword_long_weight
            } else {
                t.keyword_short_weight
            };
            acc = acc + w as u64;
        }
        if acc > 0xffff_ffff {
            proof {
                lemma_keywords_score_prefix(*t, ws@, prompt@, j as int + 1);
            }
            return false;
        }
        j += 1;
    }
    assert(ws@.take(ws.len() as int) =~= ws@);
    true
}

/// Whether every intent's lexicon score for `prompt` fits in a `u32`, so classification cannot
/// overflow.
pub fn lexicon_fits(cfg: &RuntimeConfig, prompt: &str) -> (r: bool)
    ensures
        r == scores_fit(*cfg, prompt@),
{
    let mut k: usize = 0;
    while k < cfg.intents.len()
        invariant
            k <= cfg.intents.len(),
            forall|j: int| 0 <= j < k ==> #[trigger] intent_score(*cfg, prompt@, j) <= u32::MAX,
        decreases cfg.intents.len() - k,
    {
        if !keywords_fit(&cfg.thresholds.classifier, &cfg.intents[k].keywords, prompt) {
            assert(intent_score(*cfg, prompt@, k as int) > u32::MAX);
            return false;
        }
        k += 1;
    }
    true
}

} // verus!
