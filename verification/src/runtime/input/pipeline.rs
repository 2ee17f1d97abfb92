//! The ordered deterministic input pipeline: normalize, injection guard, intent, slots.

use vstd::prelude::*;

use crate::runtime::config::RuntimeConfig;
use crate::runtime::error::{RuntimeError, RuntimeResult};
use crate::runtime::input::intent::{classify_intent, intent_decision, lexicon_fits, scores_fit,
    str_views, unknown_prefix_of};
use crate::runtime::input::normalizer::{normalize_text, normalized};
use crate::runtime::input::slots::{asset_of, extract_slots, has_alpha, metric_of, opt_view,
    rank_of, time_range_of};
use crate::runtime::schema::{NormalizedInput, RuntimeWarning};
use crate::text::to_owned_string;

verus! {

/// A warning as its `(code, message)` texts.
pub open spec fn warning_view(w: RuntimeWarning) -> (Seq<char>, Seq<char>) {
    (w.code@, w.message@)
}

/// The `(code, message)` texts of a list of warnings.
pub open spec fn warnings_view(ws: Seq<RuntimeWarning>) -> Seq<(Seq<char>, Seq<char>)> {
    ws.map_values(|w: RuntimeWarning| warning_view(w))
}

/// The warnings a turn's input raises, in stage order: injection guard, intent, slots.
pub open spec fn input_warnings(cfg: RuntimeConfig, p: Seq<char>, option_id: Option<Seq<char>>) -> Seq<
    (Seq<char>, Seq<char>),
> {
    let inj: Seq<(Seq<char>, Seq<char>)> = if cfg.injection_detector.flags(p) {
        seq![("prompt_injection_detected"@, "input matched a prompt-injection pattern"@)]
    } else {
        Seq::empty()
    };
    let intent: Seq<(Seq<char>, Seq<char>)> = match unknown_prefix_of(cfg, option_id) {
        Some(pre) => seq![("unknown_option_prefix"@, "unknown option prefix `"@ + pre + "`"@)],
        None => Seq::empty(),
    };
    let slots: Seq<(Seq<char>, Seq<char>)> = if asset_of(cfg.asset_allowlist@, p) is None
        && has_alpha(p) {
        seq![("unknown_asset"@, "asset-like token is not in runtime asset allowlist"@)]
    } else {
        Seq::empty()
    };
    inj + intent + slots
}

/// The rejection of a prompt whose lexicon score would overflow.
pub open spec fn err_score_overflow() -> Seq<char> {
    "intent lexicon score overflows u32"@
}

/// The deterministic input pipeline.
#[derive(Debug, Clone)]
pub struct InputPipeline {
    /// Ordered stage ids.
    pub stages: Vec<String>,
}

impl Default for InputPipeline {
    /// A pipeline with no declared stage ids.
    fn default() -> (r: Self)
        ensures
            r.stages@.len() == 0,
    {
        InputPipeline { stages: Vec::new() }
    }
}

impl InputPipeline {
    /// Runs the deterministic input pipeline: normalize, then the injection guard (which never
    /// short-circuits; a match becomes a `prompt_injection_detected` warning), intent, and slots.
    /// A prompt whose lexicon scores would overflow is refused as an internal error.
    pub fn run_with_config(&self, cfg: &RuntimeConfig, prompt: &str, option_id: Option<&str>) -> (r:
        RuntimeResult<NormalizedInput>)
        ensures
            ({
                let p = normalized(prompt@);
                let oid = match option_id {
                    Some(o) => Some(o@),
                    None => None,
                };
                let d = intent_decision(*cfg, p, oid);
                &&& !scores_fit(*cfg, p) ==> (r matches Err(RuntimeError::Internal(m)) && m@
                    == err_score_overflow())
                &&& scores_fit(*cfg, p) ==> (r matches Ok(n) && n.prompt@ == p && n.intent@ == d.0
                    && n.confidence == d.1 && str_views(n.candidate_intents@) == d.2
                    && n.intent_source == Some(d.3) && opt_view(n.slots.time_range)
                    == time_range_of(p) && opt_view(n.slots.metric) == metric_of(
                    cfg.metric_aliases@,
                    p,
                ) && opt_view(n.slots.asset) == asset_of(cfg.asset_allowlist@, p)
                    && n.slots.rank_limit == rank_of(p) && warnings_view(n.warnings@)
                    == input_warnings(*cfg, p, oid))
            }),
    {
        let clean_prompt = normalize_text(prompt);
        if !lexicon_fits(cfg, clean_prompt.as_str()) {
            return Err(RuntimeError::Internal(to_owned_string("intent lexicon score overflows u32")));
        }
        let mut warnings: Vec<RuntimeWarning> = Vec::new();
        if cfg.injection_detector.is_match(clean_prompt.as_str()) {
            warnings.push(
                RuntimeWarning {
                    code: to_owned_string("prompt_injection_detected"),
                    message: to_owned_string("input matched a prompt-injection pattern"),
                },
            );
        }
        let ghost inj = warnings_view(warnings@);
        let intent = classify_intent(cfg, clean_prompt.as_str(), option_id);
        let slot_extraction = extract_slots(cfg, clean_prompt.as_str());
        let mut k: usize = 0;
        while k < intent.warnings.len()
            invariant
                k <= intent.warnings.len(),
                warnings_view(warnings@) == inj + warnings_view(intent.warnings@.take(k as int)),
            decreases intent.warnings.len() - k,
        {
            let w = RuntimeWarning {
                code: intent.warnings[k].code.clone(),
                message: intent.warnings[k].message.clone(),
            };
            let ghost wv = warning_view(w);
            let ghost before = warnings_view(warnings@);
            assert(wv == warning_view(intent.warnings@[k as int]));
            warnings.push(w);
            assert(warnings_view(warnings@) =~= before.push(wv));
            assert(warnings_view(intent.warnings@.take(k as int + 1)) =~= warnings_view(
                intent.warnings@.take(k as int),
            ).push(wv));
            assert(warnings_view(warnings@) =~= inj + warnings_view(
                intent.warnings@.take(k as int + 1),
            ));
            k += 1;
        }
        assert(intent.warnings@.take(intent.warnings.len() as int) =~= intent.warnings@);
        let ghost mid = warnings_view(warnings@);
        let mut k: usize = 0;
        while k < slot_extraction.warnings.len()
            invariant
                k <= slot_extraction.warnings.len(),
                warnings_view(warnings@) == mid + warnings_view(
                    slot_extraction.warnings@.take(k as int),
                ),
            decreases slot_extraction.warnings.len() - k,
        {
            let w = RuntimeWarning {
                code: slot_extraction.warnings[k].code.clone(),
                message: slot_extraction.warnings[k].message.clone(),
            };
            let ghost wv = warning_view(w);
            let ghost before = warnings_view(warnings@);
            assert(wv == warning_view(slot_extraction.warnings@[k as int]));
            warnings.push(w);
            assert(warnings_view(warnings@) =~= before.push(wv));
            assert(warnings_view(slot_extraction.warnings@.take(k as int + 1)) =~= warnings_view(
                slot_extraction.warnings@.take(k as int),
            ).push(wv));
            assert(warnings_view(warnings@) =~= mid + warnings_view(
                slot_extraction.warnings@.take(k as int + 1),
            ));
            k += 1;
        }
        assert(slot_extraction.warnings@.take(slot_extraction.warnings.len() as int)
            =~= slot_extraction.warnings@);
        let ghost oid = match option_id {
            Some(o) => Some(o@),
            None => None::<Seq<char>>,
        };
        proof {
            let p = clean_prompt@;
            assert(warnings_view(intent.warnings@) =~= match unknown_prefix_of(*cfg, oid) {
                Some(pre) => seq![("unknown_option_prefix"@, "unknown option prefix `"@ + pre + "`"@)],
                None => Seq::<(Seq<char>, Seq<char>)>::empty(),
            });
            assert(warnings_view(slot_extraction.warnings@) =~= if asset_of(
                cfg.asset_allowlist@,
                p,
            ) is None && has_alpha(p) {
                seq![("unknown_asset"@, "asset-like token is not in runtime asset allowlist"@)]
            } else {
                Seq::<(Seq<char>, Seq<char>)>::empty()
            });
            assert(inj =~= if cfg.injection_detector.flags(p) {
                seq![("prompt_injection_detected"@, "input matched a prompt-injection pattern"@)]
            } else {
                Seq::<(Seq<char>, Seq<char>)>::empty()
            });
            assert(warnings_view(warnings@) =~= input_warnings(*cfg, p, oid));
        }
        Ok(
            NormalizedInput {
                prompt: clean_prompt,
                intent: intent.intent,
                confidence: intent.confidence,
                candidate_intents: intent.candidate_intents,
                intent_source: Some(intent.source),
                slots: slot_extraction.slots,
                warnings,
            },
        )
    }
}

} // verus!
