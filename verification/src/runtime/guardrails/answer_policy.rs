//! Confidence-driven answer policy.

use vstd::prelude::*;

use crate::runtime::config::ConfidenceThresholds;
use crate::runtime::schema::{NormalizedInput, RuntimeWarning};
use crate::text::{str_eq, to_owned_string};

verus! {

/// Policy decision for one normalized input.
#[derive(Debug, Clone, PartialEq, Eq)]
pub enum AnswerDecision {
    /// Continue normally.
    Answer,
    /// Emit disclaimer before continuing.
    Disclaimer(String),
    /// Refuse semantically with a 200 response.
    Refuse(String),
}

/// The warning code the injection guard leaves on a flagged prompt.
pub open spec fn injection_code() -> Seq<char> {
    "prompt_injection_detected"@
}

/// Some warning carries the injection code.
pub open spec fn has_injection_warning(warnings: Seq<RuntimeWarning>) -> bool {
    exists|i: int| 0 <= i < warnings.len() && (#[trigger] warnings[i]).code@ == injection_code()
}

/// Whether any warning carries `code`.
pub fn has_warning(warnings: &Vec<RuntimeWarning>, code: &str) -> (r: bool)
    ensures
        r == exists|i: int| 0 <= i < warnings.len() && (#[trigger] warnings@[i]).code@ == code@,
{
    let mut i: usize = 0;
    while i < warnings.len()
        invariant
            i <= warnings.len(),
            forall|j: int| 0 <= j < i ==> (#[trigger] warnings@[j]).code@ != code@,
        decreases warnings.len() - i,
    {
        if str_eq(warnings[i].code.as_str(), code) {
            return true;
        }
        i += 1;
    }
    false
}

/// Answer policy: decides how to handle one normalized input.
pub trait AnswerPolicy {
    /// Decide how to handle the normalized input.
    fn decide(&self, input: &NormalizedInput) -> AnswerDecision;
}

/// Confidence-driven rule policy; its thresholds come from the runtime pack.
#[derive(Debug, Clone, Copy)]
pub struct RuleAnswerPolicy {
    /// At or above this confidence, answer without a disclaimer.
    pub answer_normal: u32,
    /// Below this confidence (or `unknown` intent), refuse as off-scope.
    pub answer_gray: u32,
}

/// What the rule policy decides, as a code: `None` answers, `Some((true, r))` refuses with
/// reason `r`, `Some((false, r))` disclaims with reason `r`.
pub open spec fn rule_decision(p: RuleAnswerPolicy, input: NormalizedInput) -> Option<(bool, Seq<char>)> {
    if has_injection_warning(input.warnings@) {
        Some((true, "prompt_injection"@))
    } else if input.intent@ == "unknown"@ || input.confidence < p.answer_gray {
        Some((true, "off_scope"@))
    } else if input.confidence < p.answer_normal {
        Some((false, "low_confidence"@))
    } else {
        None
    }
}

/// `d` is the decision described by `code` (see [`rule_decision`]).
pub open spec fn decision_is(d: AnswerDecision, code: Option<(bool, Seq<char>)>) -> bool {
    match code {
        None => d is Answer,
        Some((true, r)) => d matches AnswerDecision::Refuse(s) && s@ == r,
        Some((false, r)) => d matches AnswerDecision::Disclaimer(s) && s@ == r,
    }
}

impl RuleAnswerPolicy {
    /// Build the policy from the runtime confidence thresholds.
    pub fn new(thresholds: &ConfidenceThresholds) -> (p: Self)
        ensures
            p.answer_normal == thresholds.answer_normal,
            p.answer_gray == thresholds.answer_gray,
    {
        RuleAnswerPolicy { answer_normal: thresholds.answer_normal, answer_gray: thresholds.answer_gray }
    }
}

impl AnswerPolicy for RuleAnswerPolicy {
    /// Injection refuses first; then `unknown` or low confidence refuses as off-scope; then a
    /// gray confidence disclaims; otherwise the turn is answered.
    fn decide(&self, input: &NormalizedInput) -> (d: AnswerDecision)
        ensures
            decision_is(d, rule_decision(*self, *input)),
    {
        if has_warning(&input.warnings, "prompt_injection_detected") {
            return AnswerDecision::Refuse(to_owned_string("prompt_injection"));
        }
        if str_eq(input.intent.as_str(), "unknown") || input.confidence < self.answer_gray {
            return AnswerDecision::Refuse(to_owned_string("off_scope"));
        }
        if input.confidence < self.answer_normal {
            return AnswerDecision::Disclaimer(to_owned_string("low_confidence"));
        }
        AnswerDecision::Answer
    }
}

/// The intent-filtering-free policy: answers every prompt, whatever its intent or confidence,
/// but still refuses prompt injection.
#[derive(Debug, Clone, Copy, Default)]
pub struct AlwaysAnswerPolicy;

impl AnswerPolicy for AlwaysAnswerPolicy {
    /// Refuses exactly the injection-flagged inputs; answers everything else.
    fn decide(&self, input: &NormalizedInput) -> (d: AnswerDecision)
        ensures
            has_injection_warning(input.warnings@) ==> (d matches AnswerDecision::Refuse(r) && r@
                == "prompt_injection"@),
            !has_injection_warning(input.warnings@) ==> d is Answer,
    {
        if has_warning(&input.warnings, "prompt_injection_detected") {
            return AnswerDecision::Refuse(to_owned_string("prompt_injection"));
        }
        AnswerDecision::Answer
    }
}


/// An injection-flagged input is refused as `prompt_injection` by the rule policy whatever its
/// intent, confidence or thresholds — the same refusal the answer-everything policy keeps, so
/// relaxing scope never relaxes safety.
pub proof fn law_injection_is_always_refused(p: RuleAnswerPolicy, input: NormalizedInput)
    requires
        has_injection_warning(input.warnings@),
    ensures
        rule_decision(p, input) == Some((true, "prompt_injection"@)),
{
}

/// The rule policy answers without a disclaimer exactly the safe, in-scope inputs whose
/// confidence clears both thresholds.
pub proof fn law_rule_policy_answers_only_clear_in_scope_input(p: RuleAnswerPolicy, input: NormalizedInput)
    ensures
        rule_decision(p, input) is None <==> (!has_injection_warning(input.warnings@)
            && input.intent@ != "unknown"@ && input.confidence >= p.answer_gray
            && input.confidence >= p.answer_normal),
{
}

} // verus!
