//! The response replay baseline and its validation.

use vstd::prelude::*;

use crate::runtime::error::{RuntimeError, RuntimeResult};
use crate::search::{first_where, is_first, lemma_first_where_none, lemma_first_where_some};
use crate::text::{all_ws, concat2, is_blank, push_str, str_eq};

verus! {

/// Baseline provenance status.
#[derive(Debug, Clone, Copy, PartialEq, Eq)]
pub enum BaselineStatus {
    /// Baseline is intentionally not available yet.
    Pending,
    /// Baseline was loaded from a replay artifact.
    Loaded,
}

/// One replay response case.
#[derive(Debug, Clone, PartialEq, Eq)]
pub struct ResponseCase {
    /// Stable case id.
    pub id: String,
    /// Original user prompt.
    pub prompt: String,
    /// Expected response.
    pub expected_response: Option<String>,
    /// Actual replay response to compare.
    pub actual_response: Option<String>,
    /// Response substrings that must be present.
    pub must_include: Vec<String>,
    /// Response substrings that must be absent.
    pub must_not_include: Vec<String>,
    /// Maximum allowed latency in milliseconds.
    pub max_latency_ms: Option<u64>,
    /// Maximum allowed token count.
    pub max_tokens: Option<u64>,
    /// Expected refusal flag.
    pub expected_refused: Option<bool>,
    /// Expected fallback flag.
    pub expected_fallback: Option<bool>,
    /// Observed latency in milliseconds.
    pub latency_ms: Option<u64>,
    /// Observed token count.
    pub tokens: Option<u64>,
    /// Whether this case is a refusal.
    pub refused: bool,
    /// Whether this case used fallback behavior.
    pub fallback: bool,
}

/// Response replay baseline.
#[derive(Debug, Clone, PartialEq, Eq)]
pub struct ResponseBaseline {
    /// Baseline status.
    pub status: BaselineStatus,
    /// Source/provenance note for the cases.
    pub provenance: String,
    /// Replay cases.
    pub cases: Vec<ResponseCase>,
}

/// What is wrong with case `i`, in check order: `0` blank id, `1` an earlier case has the same
/// id, `2` blank prompt.
pub open spec fn case_issue(cases: Seq<ResponseCase>, i: int) -> Option<u8> {
    if all_ws(cases[i].id@) {
        Some(0u8)
    } else if exists|j: int| 0 <= j < i && (#[trigger] cases[j]).id@ == cases[i].id@ {
        Some(1u8)
    } else if all_ws(cases[i].prompt@) {
        Some(2u8)
    } else {
        None
    }
}

/// Case `i` has an issue.
pub open spec fn case_bad_at(cases: Seq<ResponseCase>) -> spec_fn(int) -> bool {
    |i: int| case_issue(cases, i) is Some
}

/// The rejection of a baseline, prefixed with the artifact's path.
pub open spec fn baseline_error(path: Seq<char>, b: ResponseBaseline) -> Option<Seq<char>> {
    let cases = b.cases@;
    if b.status == BaselineStatus::Loaded && cases.len() == 0 {
        Some(path + " loaded response baseline has no cases"@)
    } else {
        match first_where(cases.len() as int, case_bad_at(cases)) {
            Some(i) => match case_issue(cases, i) {
                Some(0u8) => Some(path + " response baseline has a case with empty id"@),
                Some(1u8) => Some(path + " response baseline has duplicate case id `"@ + cases[i].id@
                    + "`"@),
                _ => Some(path + " response baseline case `"@ + cases[i].id@ + "` has empty prompt"@),
            },
            None => None,
        }
    }
}

/// Whether an earlier case than `i` has id `id`.
fn earlier_id(cases: &Vec<ResponseCase>, i: usize, id: &str) -> (r: bool)
    requires
        i <= cases.len(),
    ensures
        r == exists|j: int| 0 <= j < i && (#[trigger] cases@[j]).id@ == id@,
{
    let mut j: usize = 0;
    while j < i
        invariant
            j <= i <= cases.len(),
            forall|k: int| 0 <= k < j ==> (#[trigger] cases@[k]).id@ != id@,
        decreases i - j,
    {
        if str_eq(cases[j].id.as_str(), id) {
            return true;
        }
        j += 1;
    }
    false
}

/// Validates a response baseline: a loaded baseline needs cases; every case needs a non-blank id
/// that no earlier case used and a non-blank prompt.
pub fn validate_response_baseline(path: &str, baseline: &ResponseBaseline) -> (r: RuntimeResult<()>)
    ensures
        match baseline_error(path@, *baseline) {
            None => r is Ok,
            Some(m) => r matches Err(RuntimeError::Config(e)) && e@ == m,
        },
{
    let ghost cases = baseline.cases@;
    if baseline.cases.len() == 0 {
        match baseline.status {
            BaselineStatus::Loaded => {
                return Err(
                    RuntimeError::Config(concat2(path, " loaded response baseline has no cases")),
                );
            },
            BaselineStatus::Pending => {},
        }
    }
    let mut i: usize = 0;
    while i < baseline.cases.len()
        invariant
            i <= baseline.cases.len(),
            cases == baseline.cases@,
            !(baseline.status == BaselineStatus::Loaded && cases.len() == 0),
            forall|j: int| 0 <= j < i ==> !#[trigger] case_bad_at(cases)(j),
        decreases baseline.cases.len() - i,
    {
        let id = baseline.cases[i].id.as_str();
        if is_blank(id) {
            proof {
                lemma_first_where_some(cases.len() as int, case_bad_at(cases), i as int);
            }
            return Err(
                RuntimeError::Config(concat2(path, " response baseline has a case with empty id")),
            );
        }
        if earlier_id(&baseline.cases, i, id) {
            proof {
                lemma_first_where_some(cases.len() as int, case_bad_at(cases), i as int);
            }
            let mut e = concat2(path, " response baseline has duplicate case id `");
            push_str(&mut e, id);
            push_str(&mut e, "`");
            return Err(RuntimeError::Config(e));
        }
        if is_blank(baseline.cases[i].prompt.as_str()) {
            proof {
                lemma_first_where_some(cases.len() as int, case_bad_at(cases), i as int);
            }
            let mut e = concat2(path, " response baseline case `");
            push_str(&mut e, id);
            push_str(&mut e, "` has empty prompt");
            return Err(RuntimeError::Config(e));
        }
        i += 1;
    }
    proof {
        lemma_first_where_none(cases.len() as int, case_bad_at(cases));
    }
    Ok(())
}

/// What loading a parsed baseline decides: a blank provenance is refused first, then
/// [`baseline_error`].
pub open spec fn loaded_baseline_error(path: Seq<char>, b: ResponseBaseline) -> Option<Seq<char>> {
    if all_ws(b.provenance@) {
        Some(path + " response baseline provenance is empty"@)
    } else {
        baseline_error(path, b)
    }
}

/// Checks a parsed baseline as loading does: provenance must not be blank, then it must validate.
pub fn check_response_baseline(path: &str, baseline: &ResponseBaseline) -> (r: RuntimeResult<()>)
    ensures
        match loaded_baseline_error(path@, *baseline) {
            None => r is Ok,
            Some(m) => r matches Err(RuntimeError::Config(e)) && e@ == m,
        },
{
    if is_blank(baseline.provenance.as_str()) {
        return Err(
            RuntimeError::Config(concat2(path, " response baseline provenance is empty")),
        );
    }
    validate_response_baseline(path, baseline)
}

} // verus!
