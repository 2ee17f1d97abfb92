//! The eval runner's decisions: mode selection, per-case response scoring, the replay and
//! pipeline-only reports, and the response heuristics of live evaluation.

use vstd::prelude::*;

use crate::agent::wiring::{compose_with_mcp, with_mcp};
use crate::runtime::config::RuntimeConfig;
use crate::runtime::error::{RuntimeError, RuntimeResult};
use crate::runtime::eval::baseline::{check_response_baseline, loaded_baseline_error,
    BaselineStatus, ResponseBaseline, ResponseCase};
use crate::runtime::eval::fixtures::PipelineFixture;
use crate::runtime::eval::report::EvalReport;
use crate::runtime::input::intent::{intent_decision, scores_fit};
use crate::runtime::input::normalizer::normalized;
use crate::runtime::input::pipeline::{err_score_overflow, InputPipeline};
use crate::runtime::input::slots::{asset_of, metric_of, rank_of};
use crate::runtime::schema::NormalizedInput;
use crate::text::{chars_vec, is_blank, concat2, contains, contains_seq, decimal, is_whitespace, is_ws,
    lowercase, push_str, str_eq, str_lowercase, to_owned_string, u64_to_decimal};

verus! {

/// Eval mode.
#[derive(Debug, Clone, PartialEq, Eq)]
pub enum EvalMode {
    /// The offline deterministic input pipeline eval.
    PipelineOnly,
    /// Compare recorded responses in a replay artifact with their expectations.
    ResponseReplay { artifact: String },
    /// Run against provider-backed agent behavior with an approved baseline.
    ResponseLive { baseline: String },
}

/// The usage line printed when no mode is selected.
pub open spec fn usage_text() -> Seq<char> {
    "usage: eval --pipeline-only | --response --replay <artifact> | --response --live [--baseline <path>]"@
}

/// Selects the eval mode from the command-line flags.
pub fn eval_mode(
    pipeline_only: bool,
    response: bool,
    replay: Option<String>,
    live: bool,
    baseline: String,
) -> (r: Result<EvalMode, String>)
    ensures
        pipeline_only && !(response || replay is Some || live) ==> r == Ok::<EvalMode, String>(
            EvalMode::PipelineOnly,
        ),
        pipeline_only && (response || replay is Some || live) ==> (r matches Err(e) && e@
            == "--pipeline-only cannot be combined with response eval flags"@),
        !pipeline_only && !response ==> (r matches Err(e) && e@ == usage_text()),
        !pipeline_only && response && replay is Some && !live ==> r == Ok::<EvalMode, String>(
            EvalMode::ResponseReplay { artifact: replay->0 },
        ),
        !pipeline_only && response && replay is None && live ==> r == Ok::<EvalMode, String>(
            EvalMode::ResponseLive { baseline },
        ),
        !pipeline_only && response && replay is Some && live ==> (r matches Err(e) && e@
            == "--replay and --live are mutually exclusive"@),
        !pipeline_only && response && replay is None && !live ==> (r matches Err(e) && e@
            == "--response requires --replay <artifact> or --live"@),
{
    if pipeline_only {
        if response || replay.is_some() || live {
            return Err(to_owned_string("--pipeline-only cannot be combined with response eval flags"));
        }
        return Ok(EvalMode::PipelineOnly);
    }
    if !response {
        return Err(to_owned_string(
            "usage: eval --pipeline-only | --response --replay <artifact> | --response --live [--baseline <path>]",
        ));
    }
    match replay {
        Some(artifact) => if live {
            Err(to_owned_string("--replay and --live are mutually exclusive"))
        } else {
            Ok(EvalMode::ResponseReplay { artifact })
        },
        None => if live {
            Ok(EvalMode::ResponseLive { baseline })
        } else {
            Err(to_owned_string("--response requires --replay <artifact> or --live"))
        },
    }
}

/// What was observed for one case.
#[derive(Debug, Clone, PartialEq, Eq)]
pub struct ObservedResponse {
    pub response: String,
    pub latency_ms: u64,
    pub tokens: u64,
    pub refused: bool,
    pub fallback: bool,
}

/// The `Display` text of a boolean.
pub open spec fn bool_text(b: bool) -> Seq<char> {
    if b {
        "true"@
    } else {
        "false"@
    }
}

/// Renders a boolean as `Display` does.
fn bool_str(b: bool) -> (r: &'static str)
    ensures
        r@ == bool_text(b),
{
    if b {
        "true"
    } else {
        "false"
    }
}

/// The missing-substring failures for `needles`, in order.
pub open spec fn missing_failures(needles: Seq<String>, response: Seq<char>) -> Seq<Seq<char>>
    decreases needles.len(),
{
    if needles.len() == 0 {
        Seq::empty()
    } else {
        let prev = missing_failures(needles.drop_last(), response);
        if !contains_seq(response, needles.last()@) {
            prev.push("response missing required substring `"@ + needles.last()@ + "`"@)
        } else {
            prev
        }
    }
}

/// The forbidden-substring failures for `needles`, in order.
pub open spec fn forbidden_failures(needles: Seq<String>, response: Seq<char>) -> Seq<Seq<char>>
    decreases needles.len(),
{
    if needles.len() == 0 {
        Seq::empty()
    } else {
        let prev = forbidden_failures(needles.drop_last(), response);
        if contains_seq(response, needles.last()@) {
            prev.push("response contained forbidden substring `"@ + needles.last()@ + "`"@)
        } else {
            prev
        }
    }
}

/// Zero or one failure.
pub open spec fn failure_if(cond: bool, msg: Seq<char>) -> Seq<Seq<char>> {
    if cond {
        seq![msg]
    } else {
        Seq::empty()
    }
}

/// The exact-match failure, if the case expects an exact response.
pub open spec fn exact_failures(c: ResponseCase, o: ObservedResponse) -> Seq<Seq<char>> {
    match c.expected_response {
        Some(e) => failure_if(
            o.response@ != e@,
            "actual response did not exactly match expected response"@,
        ),
        None => Seq::empty(),
    }
}

/// The budget and flag failures: latency, tokens, refusal, fallback.
pub open spec fn budget_failures(c: ResponseCase, o: ObservedResponse) -> Seq<Seq<char>> {
    let latency = match c.max_latency_ms {
        Some(max) => failure_if(
            o.latency_ms > max,
            "latency "@ + decimal(o.latency_ms as nat) + "ms exceeded budget "@ + decimal(
                max as nat,
            ) + "ms"@,
        ),
        None => Seq::empty(),
    };
    let tokens = match c.max_tokens {
        Some(max) => failure_if(
            o.tokens > max,
            "tokens "@ + decimal(o.tokens as nat) + " exceeded budget "@ + decimal(max as nat),
        ),
        None => Seq::empty(),
    };
    let refused = match c.expected_refused {
        Some(e) => failure_if(
            o.refused != e,
            "refused="@ + bool_text(o.refused) + " did not match expected "@ + bool_text(e),
        ),
        None => Seq::empty(),
    };
    let fallback = match c.expected_fallback {
        Some(e) => failure_if(
            o.fallback != e,
            "fallback="@ + bool_text(o.fallback) + " did not match expected "@ + bool_text(e),
        ),
        None => Seq::empty(),
    };
    latency + tokens + refused + fallback
}

/// Every way an observed response fails its case's expectations, in check order: exact match,
/// required substrings, forbidden substrings, latency budget, token budget, refusal and fallback
/// flags.
pub open spec fn case_failures(c: ResponseCase, o: ObservedResponse) -> Seq<Seq<char>> {
    exact_failures(c, o) + missing_failures(c.must_include@, o.response@) + forbidden_failures(
        c.must_not_include@,
        o.response@,
    ) + budget_failures(c, o)
}

/// The views of a list of strings.
pub open spec fn texts(v: Seq<String>) -> Seq<Seq<char>> {
    v.map_values(|s: String| s@)
}

/// Appends `msg` to `out`.
fn push_failure(out: &mut Vec<String>, msg: String)
    ensures
        texts(final(out)@) == texts(old(out)@).push(msg@),
{
    out.push(msg);
    assert(texts(out@) =~= texts(old(out)@).push(msg@));
}

/// Appends every message of `more` to `out`.
fn extend_failures(out: &mut Vec<String>, more: Vec<String>)
    ensures
        texts(final(out)@) == texts(old(out)@) + texts(more@),
{
    let ghost start = texts(out@);
    let mut i: usize = 0;
    while i < more.len()
        invariant
            i <= more.len(),
            texts(out@) == start + texts(more@).take(i as int),
        decreases more.len() - i,
    {
        let ghost before = texts(out@);
        out.push(more[i].clone());
        assert(texts(out@) =~= before.push(more@[i as int]@));
        assert(texts(more@).take(i as int + 1) =~= texts(more@).take(i as int).push(
            more@[i as int]@,
        ));
        i += 1;
    }
    assert(texts(more@).take(more.len() as int) =~= texts(more@));
}

/// The missing-substring failures.
fn missing_part(needles: &Vec<String>, response: &str) -> (r: Vec<String>)
    ensures
        texts(r@) == missing_failures(needles@, response@),
{
    let mut failures: Vec<String> = Vec::new();
    let mut i: usize = 0;
    while i < needles.len()
        invariant
            i <= needles.len(),
            texts(failures@) == missing_failures(needles@.take(i as int), response@),
        decreases needles.len() - i,
    {
        proof {
            assert(needles@.take(i as int + 1).drop_last() =~= needles@.take(i as int));
            assert(needles@.take(i as int + 1).last() == needles@[i as int]);
        }
        if !contains(response, needles[i].as_str()) {
            let mut m = concat2("response missing required substring `", needles[i].as_str());
            push_str(&mut m, "`");
            push_failure(&mut failures, m);
        }
        i += 1;
    }
    assert(needles@.take(needles.len() as int) =~= needles@);
    failures
}

/// The forbidden-substring failures.
fn forbidden_part(needles: &Vec<String>, response: &str) -> (r: Vec<String>)
    ensures
        texts(r@) == forbidden_failures(needles@, response@),
{
    let mut failures: Vec<String> = Vec::new();
    let mut i: usize = 0;
    while i < needles.len()
        invariant
            i <= needles.len(),
            texts(failures@) == forbidden_failures(needles@.take(i as int), response@),
        decreases needles.len() - i,
    {
        proof {
            assert(needles@.take(i as int + 1).drop_last() =~= needles@.take(i as int));
            assert(needles@.take(i as int + 1).last() == needles@[i as int]);
        }
        if contains(response, needles[i].as_str()) {
            let mut m = concat2("response contained forbidden substring `", needles[i].as_str());
            push_str(&mut m, "`");
            push_failure(&mut failures, m);
        }
        i += 1;
    }
    assert(needles@.take(needles.len() as int) =~= needles@);
    failures
}

/// The exact-match failure.
fn exact_part(case: &ResponseCase, observed: &ObservedResponse) -> (r: Vec<String>)
    ensures
        texts(r@) == exact_failures(*case, *observed),
{
    let mut failures: Vec<String> = Vec::new();
    match &case.expected_response {
        Some(expected) => {
            if !str_eq(observed.response.as_str(), expected.as_str()) {
                push_failure(
                    &mut failures,
                    to_owned_string("actual response did not exactly match expected response"),
                );
            }
        },
        None => {},
    }
    assert(texts(failures@) =~= exact_failures(*case, *observed));
    failures
}

/// `"{label}={observed} did not match expected {expected}"`.
fn flag_mismatch(label: &str, observed: bool, expected: bool) -> (r: String)
    ensures
        r@ == label@ + bool_text(observed) + " did not match expected "@ + bool_text(expected),
{
    let mut m = concat2(label, bool_str(observed));
    push_str(&mut m, " did not match expected ");
    push_str(&mut m, bool_str(expected));
    m
}

/// The budget and flag failures.
fn budget_part(case: &ResponseCase, observed: &ObservedResponse) -> (r: Vec<String>)
    ensures
        texts(r@) == budget_failures(*case, *observed),
{
    let mut failures: Vec<String> = Vec::new();
    match case.max_latency_ms {
        Some(max) => {
            if observed.latency_ms > max {
                let mut m = to_owned_string("latency ");
                let d = u64_to_decimal(observed.latency_ms);
                push_str(&mut m, d.as_str());
                push_str(&mut m, "ms exceeded budget ");
                let b = u64_to_decimal(max);
                push_str(&mut m, b.as_str());
                push_str(&mut m, "ms");
                push_failure(&mut failures, m);
            }
        },
        None => {},
    }
    match case.max_tokens {
        Some(max) => {
            if observed.tokens > max {
                let mut m = to_owned_string("tokens ");
                let d = u64_to_decimal(observed.tokens);
                push_str(&mut m, d.as_str());
                push_str(&mut m, " exceeded budget ");
                let b = u64_to_decimal(max);
                push_str(&mut m, b.as_str());
                push_failure(&mut failures, m);
            }
        },
        None => {},
    }
    match case.expected_refused {
        Some(e) => {
            if observed.refused != e {
                push_failure(&mut failures, flag_mismatch("refused=", observed.refused, e));
            }
        },
        None => {},
    }
    match case.expected_fallback {
        Some(e) => {
            if observed.fallback != e {
                push_failure(&mut failures, flag_mismatch("fallback=", observed.fallback, e));
            }
        },
        None => {},
    }
    assert(texts(failures@) =~= budget_failures(*case, *observed));
    failures
}

/// Scores one observed response against its case (see [`case_failures`]).
pub fn response_case_failures(case: &ResponseCase, observed: &ObservedResponse) -> (r: Vec<String>)
    ensures
        texts(r@) == case_failures(*case, *observed),
{
    let mut failures = exact_part(case, observed);
    extend_failures(&mut failures, missing_part(&case.must_include, observed.response.as_str()));
    extend_failures(
        &mut failures,
        forbidden_part(&case.must_not_include, observed.response.as_str()),
    );
    extend_failures(&mut failures, budget_part(case, observed));
    failures
}

/// The running totals of a replay.
pub struct ReplayTally {
    pub passed: nat,
    pub failed: nat,
    pub latency_ms: nat,
    pub tokens: nat,
    pub refusals: nat,
    pub fallbacks: nat,
    pub regressions: Seq<Seq<char>>,
}

/// What a replay case's recorded response is observed as.
pub open spec fn observed_of(c: ResponseCase, actual: String) -> ObservedResponse {
    ObservedResponse {
        response: actual,
        latency_ms: match c.latency_ms {
            Some(v) => v,
            None => 0,
        },
        tokens: match c.tokens {
            Some(v) => v,
            None => 0,
        },
        refused: c.refused,
        fallback: c.fallback,
    }
}

/// Each failure prefixed with the case id.
pub open spec fn tagged(id: Seq<char>, fs: Seq<Seq<char>>) -> Seq<Seq<char>> {
    fs.map_values(|f: Seq<char>| id + ": "@ + f)
}

/// The replay totals over `cases`: a case without a recorded response fails and counts nothing
/// else; every other case passes or fails by its failures, and adds its latency, tokens, refusal
/// and fallback.
pub open spec fn tally(cases: Seq<ResponseCase>) -> ReplayTally
    decreases cases.len(),
{
    if cases.len() == 0 {
        ReplayTally {
            passed: 0,
            failed: 0,
            latency_ms: 0,
            tokens: 0,
            refusals: 0,
            fallbacks: 0,
            regressions: Seq::empty(),
        }
    } else {
        let t = tally(cases.drop_last());
        let c = cases.last();
        match c.actual_response {
            None => ReplayTally {
                failed: t.failed + 1,
                regressions: t.regressions.push(c.id@ + ": replay case missing actual_response"@),
                ..t
            },
            Some(a) => {
                let o = observed_of(c, a);
                let f = case_failures(c, o);
                ReplayTally {
                    passed: if f.len() == 0 {
                        t.passed + 1
                    } else {
                        t.passed
                    },
                    failed: if f.len() == 0 {
                        t.failed
                    } else {
                        t.failed + 1
                    },
                    latency_ms: t.latency_ms + o.latency_ms as nat,
                    tokens: t.tokens + o.tokens as nat,
                    refusals: if o.refused {
                        t.refusals + 1
                    } else {
                        t.refusals
                    },
                    fallbacks: if o.fallback {
                        t.fallbacks + 1
                    } else {
                        t.fallbacks
                    },
                    regressions: t.regressions + tagged(c.id@, f),
                }
            },
        }
    }
}

/// The replay's latency and token sums fit in `u64`.
pub open spec fn tally_fits(cases: Seq<ResponseCase>) -> bool {
    tally(cases).latency_ms <= u64::MAX && tally(cases).tokens <= u64::MAX
}

/// Totals only grow along the cases, and the counters never pass the case count.
proof fn lemma_tally_prefix(cases: Seq<ResponseCase>, i: int)
    requires
        0 <= i <= cases.len(),
    ensures
        tally(cases.take(i)).latency_ms <= tally(cases).latency_ms,
        tally(cases.take(i)).tokens <= tally(cases).tokens,
        tally(cases).passed + tally(cases).failed == cases.len(),
        tally(cases).refusals <= cases.len(),
        tally(cases).fallbacks <= cases.len(),
    decreases cases.len(),
{
    if cases.len() > 0 {
        if i < cases.len() {
            assert(cases.drop_last().take(i) =~= cases.take(i));
            lemma_tally_prefix(cases.drop_last(), i);
        } else {
            assert(cases.take(i) =~= cases);
            lemma_tally_prefix(cases.drop_last(), 0);
        }
    }
}

/// Every replay case is scored exactly once: it passes or it fails, and at most every case
/// counts as a refusal or a fallback.
pub proof fn law_every_replay_case_is_scored_once(cases: Seq<ResponseCase>)
    ensures
        tally(cases).passed + tally(cases).failed == cases.len(),
        tally(cases).refusals <= cases.len(),
        tally(cases).fallbacks <= cases.len(),
{
    lemma_tally_prefix(cases, 0);
}

/// Whether a replay's latency and token totals fit in `u64`, which scoring it takes as given.
pub fn replay_totals_fit(cases: &Vec<ResponseCase>) -> (r: bool)
    ensures
        r == tally_fits(cases@),
{
    let mut latency: u64 = 0;
    let mut tokens: u64 = 0;
    let mut i: usize = 0;
    while i < cases.len()
        invariant
            i <= cases.len(),
            latency == tally(cases@.take(i as int)).latency_ms,
            tokens == tally(cases@.take(i as int)).tokens,
        decreases cases.len() - i,
    {
        let ghost t = cases@.take(i as int + 1);
        proof {
            assert(t.drop_last() =~= cases@.take(i as int));
            assert(t.last() == cases@[i as int]);
        }
        match &cases[i].actual_response {
            None => {},
            Some(_) => {
                let l = match cases[i].latency_ms {
                    Some(v) => v,
                    None => 0,
                };
                let k = match cases[i].tokens {
                    Some(v) => v,
                    None => 0,
                };
                match (latency.checked_add(l), tokens.checked_add(k)) {
                    (Some(a), Some(b)) => {
                        latency = a;
                        tokens = b;
                    },
                    _ => {
                        proof {
                            lemma_tally_prefix(cases@, i as int + 1);
                        }
                        return false;
                    },
                }
            },
        }
        i += 1;
    }
    proof {
        assert(cases@.take(cases@.len() as int) =~= cases@);
    }
    true
}

/// The environment a live response eval needs: the provider key and the model.
pub open spec fn live_env_error(api_key: Option<Seq<char>>, model: Option<Seq<char>>) -> Option<
    Seq<char>,
> {
    if api_key is None || crate::text::all_ws(api_key->0) {
        Some("response live eval requires OPENROUTER_API_KEY"@)
    } else if model is None || crate::text::all_ws(model->0) {
        Some("response live eval requires OPENROUTER_MODEL"@)
    } else {
        None
    }
}

/// Checks the live eval's environment, given the values of `OPENROUTER_API_KEY` and
/// `OPENROUTER_MODEL` (`None` when unset): the first one that is unset or blank is named.
pub fn check_live_env(api_key: Option<&str>, model: Option<&str>) -> (r: RuntimeResult<()>)
    ensures
        match live_env_error(
            match api_key {
                Some(k) => Some(k@),
                None => None,
            },
            match model {
                Some(m) => Some(m@),
                None => None,
            },
        ) {
            None => r is Ok,
            Some(m) => r matches Err(RuntimeError::Config(e)) && e@ == m,
        },
{
    let key_missing = match api_key {
        None => true,
        Some(k) => is_blank(k),
    };
    if key_missing {
        return Err(RuntimeError::Config(to_owned_string("response live eval requires OPENROUTER_API_KEY")));
    }
    let model_missing = match model {
        None => true,
        Some(m) => is_blank(m),
    };
    if model_missing {
        return Err(RuntimeError::Config(to_owned_string("response live eval requires OPENROUTER_MODEL")));
    }
    Ok(())
}

/// The rejection of a replay whose baseline has nothing to compare.
pub open spec fn err_pending(path: Seq<char>) -> Seq<char> {
    path + " response baseline is pending or empty"@
}

/// A response eval (replay or live) needs an approved baseline: it must load cleanly, and it
/// must be neither pending nor empty.
pub fn ready_baseline(path: &str, baseline: &ResponseBaseline) -> (r: RuntimeResult<()>)
    ensures
        loaded_baseline_error(path@, *baseline) matches Some(m) ==> (r matches Err(
            RuntimeError::Config(e),
        ) && e@ == m),
        loaded_baseline_error(path@, *baseline) is None && (baseline.status
            == BaselineStatus::Pending || baseline.cases@.len() == 0) ==> (r matches Err(
            RuntimeError::Config(e),
        ) && e@ == err_pending(path@)),
        loaded_baseline_error(path@, *baseline) is None && baseline.status
            == BaselineStatus::Loaded && baseline.cases@.len() > 0 ==> r is Ok,
{
    check_response_baseline(path, baseline)?;
    let pending = match baseline.status {
        BaselineStatus::Pending => true,
        BaselineStatus::Loaded => false,
    };
    if pending || baseline.cases.len() == 0 {
        return Err(RuntimeError::Config(concat2(path, " response baseline is pending or empty")));
    }
    Ok(())
}

/// Scores a replay artifact: the baseline must load cleanly and hold cases; then every case is
/// scored (see [`tally`]) and the report carries the artifact's provenance.
pub fn replay_report(path: &str, baseline: &ResponseBaseline) -> (r: RuntimeResult<EvalReport>)
    requires
        tally_fits(baseline.cases@),
    ensures
        loaded_baseline_error(path@, *baseline) matches Some(m) ==> (r matches Err(
            RuntimeError::Config(e),
        ) && e@ == m),
        loaded_baseline_error(path@, *baseline) is None && (baseline.status
            == BaselineStatus::Pending || baseline.cases@.len() == 0) ==> (r matches Err(
            RuntimeError::Config(e),
        ) && e@ == err_pending(path@)),
        loaded_baseline_error(path@, *baseline) is None && baseline.status
            == BaselineStatus::Loaded && baseline.cases@.len() > 0 ==> (r matches Ok(rep) && {
            let t = tally(baseline.cases@);
            &&& rep.passed == t.passed
            &&& rep.failed == t.failed
            &&& rep.latency_ms == t.latency_ms
            &&& rep.tokens == t.tokens
            &&& rep.refusals == t.refusals
            &&& rep.fallbacks == t.fallbacks
            &&& texts(rep.regressions@) == t.regressions
            &&& rep.provenance matches Some(p) && p@ == baseline.provenance@
        }),
{
    ready_baseline(path, baseline)?;
    let ghost cases = baseline.cases@;
    let mut passed: usize = 0;
    let mut failed: usize = 0;
    let mut latency: u64 = 0;
    let mut tokens: u64 = 0;
    let mut refusals: usize = 0;
    let mut fallbacks: usize = 0;
    let mut regressions: Vec<String> = Vec::new();
    let mut i: usize = 0;
    while i < baseline.cases.len()
        invariant
            i <= baseline.cases.len(),
            cases == baseline.cases@,
            tally_fits(cases),
            ({
                let t = tally(cases.take(i as int));
                &&& passed == t.passed
                &&& failed == t.failed
                &&& latency == t.latency_ms
                &&& tokens == t.tokens
                &&& refusals == t.refusals
                &&& fallbacks == t.fallbacks
                &&& texts(regressions@) == t.regressions
            }),
        decreases baseline.cases.len() - i,
    {
        let ghost prev = tally(cases.take(i as int));
        proof {
            assert(cases.take(i as int + 1).drop_last() =~= cases.take(i as int));
            assert(cases.take(i as int + 1).last() == cases[i as int]);
            lemma_tally_prefix(cases, i as int + 1);
            lemma_tally_prefix(cases.take(i as int + 1), i as int + 1);
            lemma_tally_prefix(cases.take(i as int), i as int);
        }
        let case = &baseline.cases[i];
        match &case.actual_response {
            None => {
                failed = failed + 1;
                let m = concat2(case.id.as_str(), ": replay case missing actual_response");
                push_failure(&mut regressions, m);
            },
            Some(actual) => {
                let observed = ObservedResponse {
                    response: actual.clone(),
                    latency_ms: match case.latency_ms {
                        Some(v) => v,
                        None => 0,
                    },
                    tokens: match case.tokens {
                        Some(v) => v,
                        None => 0,
                    },
                    refused: case.refused,
                    fallback: case.fallback,
                };
                assert(observed == observed_of(*case, *actual));
                let failures = response_case_failures(case, &observed);
                if failures.len() == 0 {
                    passed = passed + 1;
                } else {
                    failed = failed + 1;
                    let ghost before = texts(regressions@);
                    let mut k: usize = 0;
                    while k < failures.len()
                        invariant
                            k <= failures.len(),
                            texts(regressions@) == before + tagged(
                                case.id@,
                                texts(failures@).take(k as int),
                            ),
                        decreases failures.len() - k,
                    {
                        let mut m = concat2(case.id.as_str(), ": ");
                        push_str(&mut m, failures[k].as_str());
                        push_failure(&mut regressions, m);
                        assert(tagged(case.id@, texts(failures@).take(k as int + 1)) =~= tagged(
                            case.id@,
                            texts(failures@).take(k as int),
                        ).push(case.id@ + ": "@ + failures@[k as int]@));
                        k += 1;
                    }
                    assert(texts(failures@).take(failures.len() as int) =~= texts(failures@));
                }
                proof {
                    if failures.len() == 0 {
                        assert(tagged(case.id@, texts(failures@)) =~= Seq::<Seq<char>>::empty());
                    }
                }
                latency = latency + observed.latency_ms;
                tokens = tokens + observed.tokens;
                if observed.refused {
                    refusals = refusals + 1;
                }
                if observed.fallback {
                    fallbacks = fallbacks + 1;
                }
            },
        }
        i += 1;
    }
    assert(cases.take(baseline.cases.len() as int) =~= cases);
    Ok(
        EvalReport {
            passed,
            failed,
            latency_ms: latency,
            tokens,
            refusals,
            fallbacks,
            provenance: Some(baseline.provenance.clone()),
            regressions,
        },
    )
}

/// The optional string's view.
pub open spec fn opt_text(o: Option<String>) -> Option<Seq<char>> {
    match o {
        Some(s) => Some(s@),
        None => None,
    }
}

/// A fixture's expectations hold of the pipeline's classification of its prompt.
pub open spec fn fixture_met(cfg: RuntimeConfig, f: PipelineFixture) -> bool {
    let p = normalized(f.prompt@);
    let d = intent_decision(cfg, p, opt_text(f.option_id));
    &&& d.0 == f.expected_intent@
    &&& metric_of(cfg.metric_aliases@, p) == opt_text(f.expected_metric)
    &&& asset_of(cfg.asset_allowlist@, p) == opt_text(f.expected_asset)
    &&& rank_of(p) == f.expected_rank_limit
}

/// How many of `fs` meet their expectations.
pub open spec fn met_count(cfg: RuntimeConfig, fs: Seq<PipelineFixture>) -> nat
    decreases fs.len(),
{
    if fs.len() == 0 {
        0
    } else {
        met_count(cfg, fs.drop_last()) + if fixture_met(cfg, fs.last()) {
            1nat
        } else {
            0nat
        }
    }
}

/// No more fixtures pass than were run.
pub proof fn law_met_fixtures_never_exceed_the_run(cfg: RuntimeConfig, fs: Seq<PipelineFixture>)
    ensures
        met_count(cfg, fs) <= fs.len(),
    decreases fs.len(),
{
    if fs.len() > 0 {
        law_met_fixtures_never_exceed_the_run(cfg, fs.drop_last());
    }
}

/// Every fixture's prompt can be classified without overflowing a lexicon score.
pub open spec fn fixtures_runnable(cfg: RuntimeConfig, fs: Seq<PipelineFixture>) -> bool {
    forall|i: int| 0 <= i < fs.len() ==> scores_fit(cfg, normalized(#[trigger] fs[i].prompt@))
}

/// Whether two optional strings hold the same text.
fn opt_eq(a: &Option<String>, b: &Option<String>) -> (r: bool)
    ensures
        r == (opt_text(*a) == opt_text(*b)),
{
    match (a, b) {
        (Some(x), Some(y)) => str_eq(x.as_str(), y.as_str()),
        (None, None) => true,
        _ => false,
    }
}

/// Runs the deterministic input pipeline over every fixture and counts those whose intent and
/// slots match their expectations.
pub fn pipeline_report(cfg: &RuntimeConfig, fixtures: &Vec<PipelineFixture>) -> (r: RuntimeResult<
    EvalReport,
>)
    ensures
        fixtures_runnable(*cfg, fixtures@) ==> (r matches Ok(rep) && rep.passed == met_count(
            *cfg,
            fixtures@,
        ) && rep.failed == fixtures@.len() - met_count(*cfg, fixtures@) && rep.latency_ms == 0
            && rep.tokens == 0 && rep.refusals == 0 && rep.fallbacks == 0 && rep.provenance is None
            && rep.regressions@.len() == 0),
        !fixtures_runnable(*cfg, fixtures@) ==> (r matches Err(RuntimeError::Internal(m)) && m@
            == err_score_overflow()),
{
    let pipeline = InputPipeline::default();
    let mut passed: usize = 0;
    let mut failed: usize = 0;
    let mut i: usize = 0;
    while i < fixtures.len()
        invariant
            i <= fixtures.len(),
            passed == met_count(*cfg, fixtures@.take(i as int)),
            passed + failed == i,
            forall|j: int|
                0 <= j < i ==> scores_fit(*cfg, normalized(#[trigger] fixtures@[j].prompt@)),
        decreases fixtures.len() - i,
    {
        proof {
            assert(fixtures@.take(i as int + 1).drop_last() =~= fixtures@.take(i as int));
            assert(fixtures@.take(i as int + 1).last() == fixtures@[i as int]);
        }
        let f = &fixtures[i];
        let option_id: Option<&str> = match &f.option_id {
            Some(o) => Some(o.as_str()),
            None => None,
        };
        let input = match pipeline.run_with_config(cfg, f.prompt.as_str(), option_id) {
            Ok(n) => n,
            Err(e) => {
                proof {
                    assert(!scores_fit(*cfg, normalized(fixtures@[i as int].prompt@)));
                }
                return Err(e);
            },
        };
        let ok = str_eq(input.intent.as_str(), f.expected_intent.as_str()) && opt_eq(
            &input.slots.metric,
            &f.expected_metric,
        ) && opt_eq(&input.slots.asset, &f.expected_asset) && match (
            input.slots.rank_limit,
            f.expected_rank_limit,
        ) {
            (Some(a), Some(b)) => a == b,
            (None, None) => true,
            _ => false,
        };
        assert(ok == fixture_met(*cfg, *f));
        if ok {
            passed = passed + 1;
        } else {
            failed = failed + 1;
        }
        i += 1;
    }
    assert(fixtures@.take(fixtures.len() as int) =~= fixtures@);
    Ok(
        EvalReport {
            passed,
            failed,
            latency_ms: 0,
            tokens: 0,
            refusals: 0,
            fallbacks: 0,
            provenance: None,
            regressions: Vec::new(),
        },
    )
}

/// The number of whitespace-separated words.
pub open spec fn word_count(s: Seq<char>) -> nat
    decreases s.len(),
{
    if s.len() == 0 {
        0
    } else {
        word_count(s.drop_last()) + if !is_ws(s.last()) && (s.len() == 1 || is_ws(
            s[s.len() - 2],
        )) {
            1nat
        } else {
            0nat
        }
    }
}

/// A rough token estimate: the number of whitespace-separated words, at least one.
pub fn estimate_tokens(response: &str) -> (r: u64)
    ensures
        r == if word_count(response@) == 0 {
            1
        } else {
            word_count(response@)
        },
{
    let cs = chars_vec(response);
    let mut count: u64 = 0;
    let mut i: usize = 0;
    while i < cs.len()
        invariant
            i <= cs.len(),
            cs@ == response@,
            count == word_count(response@.take(i as int)),
            count <= i,
        decreases cs.len() - i,
    {
        proof {
            let t = response@.take(i as int + 1);
            assert(t.drop_last() =~= response@.take(i as int));
            assert(t.last() == cs@[i as int]);
            if i > 0 {
                assert(t[t.len() - 2] == cs@[i - 1]);
            }
        }
        if !is_whitespace(cs[i]) && (i == 0 || is_whitespace(cs[i - 1])) {
            count = count + 1;
        }
        i += 1;
    }
    assert(response@.take(cs.len() as int) =~= response@);
    if count == 0 {
        1
    } else {
        count
    }
}

/// The response reads as a refusal.
pub open spec fn reads_as_refusal(r: Seq<char>) -> bool {
    contains_seq(r, "不能遵循"@) || contains_seq(r, "無法處理"@) || contains_seq(
        str_lowercase(r),
        "cannot comply"@,
    )
}

/// A live response reads as a refusal exactly when it says it cannot follow (`不能遵循`), says it
/// cannot handle the question (`無法處理`), or says `cannot comply` in any letter case.
pub proof fn law_refusal_phrases_mark_a_refusal(r: Seq<char>)
    ensures
        contains_seq(r, "不能遵循"@) ==> reads_as_refusal(r),
        contains_seq(r, "無法處理"@) ==> reads_as_refusal(r),
        contains_seq(str_lowercase(r), "cannot comply"@) ==> reads_as_refusal(r),
        reads_as_refusal(r) ==> contains_seq(r, "不能遵循"@) || contains_seq(r, "無法處理"@)
            || contains_seq(str_lowercase(r), "cannot comply"@),
{
}

/// Whether a live response reads as a refusal.
pub fn infer_refusal(response: &str) -> (r: bool)
    ensures
        r == reads_as_refusal(response@),
{
    if contains(response, "不能遵循") || contains(response, "無法處理") {
        return true;
    }
    let lower = lowercase(response);
    contains(lower.as_str(), "cannot comply")
}

/// The response reads as a fallback answer.
pub open spec fn reads_as_fallback(r: Seq<char>) -> bool {
    contains_seq(r, "初步判讀"@) || contains_seq(r, "需要進一步確認"@) || contains_seq(
        str_lowercase(r),
        "fallback"@,
    )
}

/// Whether a live response reads as a fallback answer.
pub fn infer_fallback(response: &str) -> (r: bool)
    ensures
        r == reads_as_fallback(response@),
{
    if contains(response, "初步判讀") || contains(response, "需要進一步確認") {
        return true;
    }
    let lower = lowercase(response);
    contains(lower.as_str(), "fallback")
}


/// The token estimate of a response (see [`estimate_tokens`]).
pub open spec fn estimated_tokens(r: Seq<char>) -> nat {
    if word_count(r) == 0 {
        1
    } else {
        word_count(r)
    }
}

/// What a live response is observed as: its text, the measured latency, the estimated tokens,
/// and whether it reads as a refusal or a fallback.
pub fn observe_live(response: String, latency_ms: u64) -> (o: ObservedResponse)
    ensures
        o.response == response,
        o.latency_ms == latency_ms,
        o.tokens == estimated_tokens(response@),
        o.refused == reads_as_refusal(response@),
        o.fallback == reads_as_fallback(response@),
{
    let tokens = estimate_tokens(response.as_str());
    let refused = infer_refusal(response.as_str());
    let fallback = infer_fallback(response.as_str());
    ObservedResponse { response, latency_ms, tokens, refused, fallback }
}

/// Scores one observed case into the running report: it passes when it has no failures, else it
/// fails and its failures (tagged with the case id) join the regressions; its latency, tokens,
/// refusal and fallback are added.
pub fn record_case(report: &mut EvalReport, case: &ResponseCase, observed: &ObservedResponse)
    requires
        old(report).passed < usize::MAX,
        old(report).failed < usize::MAX,
        old(report).latency_ms + observed.latency_ms <= u64::MAX,
        old(report).tokens + observed.tokens <= u64::MAX,
        old(report).refusals < usize::MAX,
        old(report).fallbacks < usize::MAX,
    ensures
        ({
            let f = case_failures(*case, *observed);
            &&& final(report).passed == old(report).passed + if f.len() == 0 {
                1int
            } else {
                0int
            }
            &&& final(report).failed == old(report).failed + if f.len() == 0 {
                0int
            } else {
                1int
            }
            &&& texts(final(report).regressions@) == texts(old(report).regressions@) + tagged(
                case.id@,
                f,
            )
        }),
        final(report).latency_ms == old(report).latency_ms + observed.latency_ms,
        final(report).tokens == old(report).tokens + observed.tokens,
        final(report).refusals == old(report).refusals + if observed.refused {
            1int
        } else {
            0int
        },
        final(report).fallbacks == old(report).fallbacks + if observed.fallback {
            1int
        } else {
            0int
        },
        final(report).provenance == old(report).provenance,
{
    let failures = response_case_failures(case, observed);
    if failures.len() == 0 {
        report.passed = report.passed + 1;
        assert(tagged(case.id@, texts(failures@)) =~= Seq::<Seq<char>>::empty());
        assert(texts(report.regressions@) =~= texts(old(report).regressions@) + Seq::<Seq<char>>::empty());
    } else {
        report.failed = report.failed + 1;
        let ghost before = texts(report.regressions@);
        let mut k: usize = 0;
        while k < failures.len()
            invariant
                k <= failures.len(),
                texts(report.regressions@) == before + tagged(case.id@, texts(failures@).take(k as int)),
                report.passed == old(report).passed,
                report.failed == old(report).failed + 1,
                report.latency_ms == old(report).latency_ms,
                report.tokens == old(report).tokens,
                report.refusals == old(report).refusals,
                report.fallbacks == old(report).fallbacks,
                report.provenance == old(report).provenance,
                old(report).latency_ms + observed.latency_ms <= u64::MAX,
                old(report).tokens + observed.tokens <= u64::MAX,
            decreases failures.len() - k,
        {
            let mut m = concat2(case.id.as_str(), ": ");
            push_str(&mut m, failures[k].as_str());
            push_failure(&mut report.regressions, m);
            assert(tagged(case.id@, texts(failures@).take(k as int + 1)) =~= tagged(
                case.id@,
                texts(failures@).take(k as int),
            ).push(case.id@ + ": "@ + failures@[k as int]@));
            k += 1;
        }
        assert(texts(failures@).take(failures.len() as int) =~= texts(failures@));
    }
    report.latency_ms = report.latency_ms + observed.latency_ms;
    report.tokens = report.tokens + observed.tokens;
    if observed.refused {
        report.refusals = report.refusals + 1;
    }
    if observed.fallback {
        report.fallbacks = report.fallbacks + 1;
    }
}

/// The system prompt of a live eval case: the current-time header, then the agent's system prompt
/// with the MCP server's conventions when it has any.
pub fn live_eval_system_prompt(base_system: &str, instructions: Option<&str>, time_header: &str) -> (r:
    String)
    ensures
        r@ == time_header@ + with_mcp(
            base_system@,
            match instructions {
                Some(m) => Some(m@),
                None => None,
            },
        ),
{
    let system_base = compose_with_mcp(base_system, instructions);
    concat2(time_header, system_base.as_str())
}

} // verus!
