//! Runtime capability pack configuration and its consistency rules.
//!
//! Confidences are integers in ten-thousandths (see the schema module). The pack files
//! themselves are read and parsed by the host; this module holds the parsed values, assembles
//! them into a [`RuntimeConfig`] and validates them against the builtin registry.

use vstd::prelude::*;

use super::audit::{parse_audit_failure_policy, AuditFailurePolicy};
use super::error::{RuntimeError, RuntimeResult};
use super::guardrails::injection::InjectionDetector;
use super::registry::{is_unknown_module, list_contains, names, BuiltinRegistry, ModuleFamily};
use crate::pattern::regex_valid;
use crate::text::{concat2, concat3, str_eq, to_owned_string};

verus! {

/// References from the host config to runtime pack files.
#[derive(Debug, Clone, Default)]
pub struct RuntimeRefs {
    /// Intent config path.
    pub intents: Option<String>,
    /// Lexicon config path.
    pub lexicon: Option<String>,
    /// Threshold config path.
    pub thresholds: Option<String>,
    /// Injection config path.
    pub injection: Option<String>,
}

/// Runtime input limits.
#[derive(Debug, Clone, PartialEq, Eq)]
pub struct InputConfig {
    /// Maximum prompt length in Unicode scalar values.
    pub max_prompt_chars: usize,
}

impl Default for InputConfig {
    /// A 4000-character prompt cap.
    fn default() -> (c: Self)
        ensures
            c.max_prompt_chars == 4000,
    {
        InputConfig { max_prompt_chars: 4000 }
    }
}

/// Runtime confidence thresholds, in ten-thousandths.
#[derive(Debug, Clone, PartialEq, Eq)]
pub struct ConfidenceThresholds {
    /// Confidence at or above this value can answer normally.
    pub answer_normal: u32,
    /// Below this value should refuse or fallback.
    pub answer_gray: u32,
    /// Option-path confidence.
    pub option_path: u32,
    /// Minimum confidence for LLM override.
    pub llm_override_floor: u32,
}

/// One classifier margin tier.
#[derive(Debug, Clone, PartialEq, Eq)]
pub struct MarginTier {
    /// Minimum score margin.
    pub min_margin: u32,
    /// Confidence assigned for this margin, in ten-thousandths.
    pub confidence: u32,
}

/// Intent classifier tuning (confidences in ten-thousandths).
#[derive(Debug, Clone, PartialEq, Eq)]
pub struct ClassifierTuning {
    /// Confidence for known option ids.
    pub option_match_confidence: u32,
    /// Confidence at which text can override option path.
    pub text_override_confidence: u32,
    /// Confidence for unknown intent.
    pub unknown_confidence: u32,
    /// Floor when no keyword scores.
    pub no_score_floor: u32,
    /// Confidence for ambiguous results.
    pub ambiguous_confidence: u32,
    /// Margin-to-confidence tiers, tried in order.
    pub margin_tiers: Vec<MarginTier>,
    /// Long keyword character threshold.
    pub keyword_long_chars: usize,
    /// Long keyword score weight.
    pub keyword_long_weight: u32,
    /// Short keyword score weight.
    pub keyword_short_weight: u32,
}

/// Memory context limits.
#[derive(Debug, Clone, PartialEq, Eq)]
pub struct MemoryLimits {
    /// Maximum remembered turns.
    pub max_turns: usize,
    /// Maximum memory context chars injected into a prompt.
    pub max_memory_context_chars: usize,
}

/// Runtime threshold pack.
#[derive(Debug, Clone, PartialEq, Eq)]
pub struct Thresholds {
    /// Input limits.
    pub input: InputConfig,
    /// Answer confidence thresholds.
    pub confidence: ConfidenceThresholds,
    /// Classifier tuning.
    pub classifier: ClassifierTuning,
    /// Memory limits.
    pub memory: MemoryLimits,
}

/// One configured intent.
#[derive(Debug, Clone, PartialEq, Eq)]
pub struct IntentDef {
    /// Intent id.
    pub id: String,
    /// Intent keywords.
    pub keywords: Vec<String>,
}

/// Runtime injection pattern pack.
#[derive(Debug, Clone, PartialEq, Eq)]
pub struct InjectionRuleSet {
    /// Injection pattern version.
    pub version: u32,
    /// Regex patterns.
    pub patterns: Vec<String>,
}

/// Runtime module assembly.
#[derive(Debug, Clone, PartialEq, Eq)]
pub struct Assembly {
    /// Ordered input pipeline stage ids.
    pub input_stages: Vec<String>,
    /// Answer policy backend id.
    pub answer_policy_backend: String,
    /// Whether LLM normalizer is enabled.
    pub llm_normalizer_enabled: bool,
    /// LLM normalizer backend id.
    pub llm_normalizer_backend: String,
    /// Whether server memory is enabled.
    pub memory_enabled: bool,
    /// Memory backend id.
    pub memory_backend: String,
    /// Audit sink id.
    pub audit_sink: String,
    /// Audit failure policy.
    pub audit_failure_policy: AuditFailurePolicy,
    /// Enabled guardrails.
    pub guardrails: Vec<String>,
    /// Enabled slot extractors.
    pub extractors: Vec<String>,
    /// Enabled pipeline evaluators.
    pub pipeline_evaluators: Vec<String>,
    /// Enabled response evaluators.
    pub response_evaluators: Vec<String>,
    /// Eval fixtures path.
    pub fixtures: String,
    /// Response baseline path.
    pub baseline: String,
}

/// Resolved runtime configuration.
///
/// `option_prefixes` and `metric_aliases` are held in their keys' order (the order a sorted map
/// yields them); lookups take the first matching entry.
#[derive(Debug, Clone)]
pub struct RuntimeConfig {
    /// Intent allowlist.
    pub intent_allowlist: Vec<String>,
    /// Intent definitions.
    pub intents: Vec<IntentDef>,
    /// Option id prefix to intent map, as `(prefix, intent)` pairs.
    pub option_prefixes: Vec<(String, String)>,
    /// Metric aliases, as `(alias, metric)` pairs.
    pub metric_aliases: Vec<(String, String)>,
    /// Asset allowlist.
    pub asset_allowlist: Vec<String>,
    /// Thresholds.
    pub thresholds: Thresholds,
    /// Input limits.
    pub input: InputConfig,
    /// Compiled prompt-injection detector.
    pub injection_detector: InjectionDetector,
    /// Runtime module assembly.
    pub assembly: Assembly,
    /// Ordered input stage ids.
    pub input_stages: Vec<String>,
}

/// What is wrong with intent `i` of the pack, by check order: `0` its id is outside the
/// allowlist, `1` an earlier intent has the same id, `2` it has no keywords.
pub open spec fn intent_issue(cfg: RuntimeConfig, i: int) -> Option<u8> {
    let id = cfg.intents@[i].id@;
    if !names(cfg.intent_allowlist@, id) {
        Some(0u8)
    } else if exists|j: int| 0 <= j < i && (#[trigger] cfg.intents@[j]).id@ == id {
        Some(1u8)
    } else if cfg.intents@[i].keywords.len() == 0 {
        Some(2u8)
    } else {
        None
    }
}

/// Every intent passes its checks.
pub open spec fn intents_ok(cfg: RuntimeConfig) -> bool {
    forall|i: int| 0 <= i < cfg.intents.len() ==> #[trigger] intent_issue(cfg, i) is None
}

/// `e` is the error the pack raises for intent `i`.
pub open spec fn intent_error(cfg: RuntimeConfig, i: int, e: RuntimeError) -> bool {
    let id = cfg.intents@[i].id@;
    match intent_issue(cfg, i) {
        Some(0u8) => e matches RuntimeError::IntentNotAllowed(x) && x@ == id,
        Some(1u8) => e matches RuntimeError::Config(m) && m@ == "duplicate intent id `"@ + id + "`"@,
        Some(_) => e matches RuntimeError::Config(m) && m@ == "intent `"@ + id
            + "` must define at least one keyword"@,
        None => false,
    }
}

/// Every option prefix targets an allowed intent.
pub open spec fn targets_ok(cfg: RuntimeConfig) -> bool {
    forall|i: int| 0 <= i < cfg.option_prefixes.len() ==> names(cfg.intent_allowlist@, (#[trigger] cfg.option_prefixes@[i]).1@)
}

/// Every id of `ids` is a known member of `family`.
pub open spec fn all_known(reg: BuiltinRegistry, family: ModuleFamily, ids: Seq<String>) -> bool {
    forall|i: int| 0 <= i < ids.len() ==> reg.knows(family, #[trigger] ids[i]@)
}

/// `e` names the first id of `ids` unknown to `family`, in `section`.
pub open spec fn first_unknown_error(reg: BuiltinRegistry, family: ModuleFamily, ids: Seq<String>, section: Seq<char>, e: RuntimeError) -> bool {
    exists|i: int| 0 <= i < ids.len() && is_unknown_module(e, (#[trigger] ids[i])@, section) && !reg.knows(family, ids[i]@)
        && forall|j: int| 0 <= j < i ==> reg.knows(family, #[trigger] ids[j]@)
}

/// The module references of the assembly, checked in order, all resolve.
pub open spec fn modules_ok(cfg: RuntimeConfig, reg: BuiltinRegistry) -> bool {
    let a = cfg.assembly;
    &&& all_known(reg, ModuleFamily::InputStage, a.input_stages@)
    &&& reg.knows(ModuleFamily::AnswerPolicy, a.answer_policy_backend@)
    &&& reg.knows(ModuleFamily::LlmNormalizer, a.llm_normalizer_backend@)
    &&& reg.knows(ModuleFamily::MemoryBackend, a.memory_backend@)
    &&& reg.knows(ModuleFamily::AuditSink, a.audit_sink@)
    &&& all_known(reg, ModuleFamily::Guardrail, a.guardrails@)
    &&& all_known(reg, ModuleFamily::SlotExtractor, a.extractors@)
    &&& all_known(reg, ModuleFamily::Evaluator, a.pipeline_evaluators@)
    &&& all_known(reg, ModuleFamily::Evaluator, a.response_evaluators@)
}

/// `e` is the error of the first module reference that does not resolve.
pub open spec fn module_error(cfg: RuntimeConfig, reg: BuiltinRegistry, e: RuntimeError) -> bool {
    let a = cfg.assembly;
    if !all_known(reg, ModuleFamily::InputStage, a.input_stages@) {
        first_unknown_error(reg, ModuleFamily::InputStage, a.input_stages@, "runtime.pipeline"@, e)
    } else if !reg.knows(ModuleFamily::AnswerPolicy, a.answer_policy_backend@) {
        is_unknown_module(e, a.answer_policy_backend@, "runtime.answer_policy"@)
    } else if !reg.knows(ModuleFamily::LlmNormalizer, a.llm_normalizer_backend@) {
        is_unknown_module(e, a.llm_normalizer_backend@, "runtime.llm_normalizer"@)
    } else if !reg.knows(ModuleFamily::MemoryBackend, a.memory_backend@) {
        is_unknown_module(e, a.memory_backend@, "runtime.memory"@)
    } else if !reg.knows(ModuleFamily::AuditSink, a.audit_sink@) {
        is_unknown_module(e, a.audit_sink@, "runtime.audit"@)
    } else if !all_known(reg, ModuleFamily::Guardrail, a.guardrails@) {
        first_unknown_error(reg, ModuleFamily::Guardrail, a.guardrails@, "runtime.guardrails"@, e)
    } else if !all_known(reg, ModuleFamily::SlotExtractor, a.extractors@) {
        first_unknown_error(reg, ModuleFamily::SlotExtractor, a.extractors@, "runtime.slots"@, e)
    } else if !all_known(reg, ModuleFamily::Evaluator, a.pipeline_evaluators@) {
        first_unknown_error(reg, ModuleFamily::Evaluator, a.pipeline_evaluators@, "runtime.eval"@, e)
    } else {
        first_unknown_error(reg, ModuleFamily::Evaluator, a.response_evaluators@, "runtime.eval"@, e)
    }
}

/// The pack is consistent: `unknown` is allowed, every intent is allowed, unique and has
/// keywords, every option prefix targets an allowed intent, and every module id resolves.
pub open spec fn config_valid(cfg: RuntimeConfig, reg: BuiltinRegistry) -> bool {
    &&& names(cfg.intent_allowlist@, "unknown"@)
    &&& intents_ok(cfg)
    &&& targets_ok(cfg)
    &&& modules_ok(cfg, reg)
}

impl RuntimeConfig {
    /// Validate runtime config consistency and registry references, failing on the first
    /// violated rule in this order: `unknown` allowed, the intents, the option targets, the input
    /// stages, answer policy, LLM normalizer, memory, audit sink, guardrails, slot extractors,
    /// pipeline evaluators, response evaluators.
    pub fn validate(&self, registry: &BuiltinRegistry) -> (r: RuntimeResult<()>)
        ensures
            r is Ok <==> config_valid(*self, *registry),
            !names(self.intent_allowlist@, "unknown"@) ==> (r matches Err(RuntimeError::IntentNotAllowed(x)) && x@ == "unknown"@),
            names(self.intent_allowlist@, "unknown"@) && !intents_ok(*self) ==> (r matches Err(e) && exists|i: int|
                0 <= i < self.intents.len() && #[trigger] intent_issue(*self, i) is Some && intent_error(*self, i, e)
                && forall|j: int| 0 <= j < i ==> #[trigger] intent_issue(*self, j) is None),
            names(self.intent_allowlist@, "unknown"@) && intents_ok(*self) && !targets_ok(*self) ==> (r matches Err(RuntimeError::IntentNotAllowed(x))
                && exists|i: int| 0 <= i < self.option_prefixes.len() && x@ == (#[trigger] self.option_prefixes@[i]).1@
                && !names(self.intent_allowlist@, x@) && forall|j: int| 0 <= j < i ==> names(self.intent_allowlist@, (#[trigger] self.option_prefixes@[j]).1@)),
            names(self.intent_allowlist@, "unknown"@) && intents_ok(*self) && targets_ok(*self) && !modules_ok(*self, *registry)
                ==> (r matches Err(e) && module_error(*self, *registry, e)),
    {
        if !list_contains(&self.intent_allowlist, "unknown") {
            return Err(RuntimeError::IntentNotAllowed(to_owned_string("unknown")));
        }
        let mut i: usize = 0;
        while i < self.intents.len()
            invariant
                i <= self.intents.len(),
                names(self.intent_allowlist@, "unknown"@),
                forall|j: int| 0 <= j < i ==> #[trigger] intent_issue(*self, j) is None,
            decreases self.intents.len() - i,
        {
            let intent = &self.intents[i];
            if !list_contains(&self.intent_allowlist, intent.id.as_str()) {
                assert(intent_issue(*self, i as int) == Some(0u8));
                return Err(RuntimeError::IntentNotAllowed(intent.id.clone()));
            }
            let mut k: usize = 0;
            while k < i
                invariant
                    k <= i < self.intents.len(),
                    intent == &self.intents@[i as int],
                    names(self.intent_allowlist@, "unknown"@),
                    names(self.intent_allowlist@, intent.id@),
                    forall|j: int| 0 <= j < i ==> #[trigger] intent_issue(*self, j) is None,
                    forall|j: int| 0 <= j < k ==> (#[trigger] self.intents@[j]).id@ != intent.id@,
                decreases i - k,
            {
                if str_eq(self.intents[k].id.as_str(), intent.id.as_str()) {
                    assert(self.intents@[k as int].id@ == self.intents@[i as int].id@);
                    assert(intent_issue(*self, i as int) == Some(1u8));
                    return Err(RuntimeError::Config(concat3("duplicate intent id `", intent.id.as_str(), "`")));
                }
                k += 1;
            }
            if intent.keywords.len() == 0 {
                assert(intent_issue(*self, i as int) == Some(2u8));
                return Err(RuntimeError::Config(concat3("intent `", intent.id.as_str(), "` must define at least one keyword")));
            }
            assert(intent_issue(*self, i as int) is None);
            i += 1;
        }
        let mut t: usize = 0;
        while t < self.option_prefixes.len()
            invariant
                t <= self.option_prefixes.len(),
                names(self.intent_allowlist@, "unknown"@),
                intents_ok(*self),
                forall|j: int| 0 <= j < t ==> names(self.intent_allowlist@, (#[trigger] self.option_prefixes@[j]).1@),
            decreases self.option_prefixes.len() - t,
        {
            if !list_contains(&self.intent_allowlist, self.option_prefixes[t].1.as_str()) {
                return Err(RuntimeError::IntentNotAllowed(self.option_prefixes[t].1.clone()));
            }
            t += 1;
        }
        let a = &self.assembly;
        match registry.require_all(ModuleFamily::InputStage, &a.input_stages, "runtime.pipeline") {
            Ok(()) => {},
            Err(e) => return Err(e),
        }
        match registry.require_answer_policy(a.answer_policy_backend.as_str(), "runtime.answer_policy") {
            Ok(()) => {},
            Err(e) => return Err(e),
        }
        match registry.require_llm_normalizer(a.llm_normalizer_backend.as_str(), "runtime.llm_normalizer") {
            Ok(()) => {},
            Err(e) => return Err(e),
        }
        match registry.require_memory_backend(a.memory_backend.as_str(), "runtime.memory") {
            Ok(()) => {},
            Err(e) => return Err(e),
        }
        match registry.require_audit_sink(a.audit_sink.as_str(), "runtime.audit") {
            Ok(()) => {},
            Err(e) => return Err(e),
        }
        match registry.require_all(ModuleFamily::Guardrail, &a.guardrails, "runtime.guardrails") {
            Ok(()) => {},
            Err(e) => return Err(e),
        }
        match registry.require_all(ModuleFamily::SlotExtractor, &a.extractors, "runtime.slots") {
            Ok(()) => {},
            Err(e) => return Err(e),
        }
        match registry.require_all(ModuleFamily::Evaluator, &a.pipeline_evaluators, "runtime.eval") {
            Ok(()) => {},
            Err(e) => return Err(e),
        }
        match registry.require_all(ModuleFamily::Evaluator, &a.response_evaluators, "runtime.eval") {
            Ok(()) => {},
            Err(e) => return Err(e),
        }
        Ok(())
    }
}


/// The intent pack as parsed: the allowlist, the option-prefix map (in key order) and the
/// intents.
#[derive(Debug, Clone)]
pub struct IntentPack {
    pub intent_allowlist: Vec<String>,
    pub option_prefixes: Vec<(String, String)>,
    pub intents: Vec<IntentDef>,
}

/// The lexicon pack as parsed: metric aliases (in key order) and the asset allowlist.
#[derive(Debug, Clone)]
pub struct LexiconPack {
    pub metric_aliases: Vec<(String, String)>,
    pub asset_allowlist: Vec<String>,
}

/// The prefix of the rejection of an injection pack that does not compile.
pub open spec fn injection_error_prefix() -> Seq<char> {
    "invalid injection pattern: "@
}

/// `cfg` is the assembly of the parsed packs under the host's references.
pub open spec fn assembled_from(
    cfg: RuntimeConfig,
    refs: crate::config::RuntimeRefs,
    intents: IntentPack,
    lexicon: LexiconPack,
    thresholds: Thresholds,
    injection: InjectionRuleSet,
) -> bool {
    &&& cfg.intent_allowlist == intents.intent_allowlist
    &&& cfg.intents == intents.intents
    &&& cfg.option_prefixes == intents.option_prefixes
    &&& cfg.metric_aliases == lexicon.metric_aliases
    &&& cfg.asset_allowlist == lexicon.asset_allowlist
    &&& cfg.thresholds == thresholds
    &&& cfg.input == thresholds.input
    &&& cfg.injection_detector.spec_version() == injection.version
    &&& cfg.injection_detector.patterns() == injection.patterns@.map_values(|p: String| p@)
    &&& cfg.assembly.input_stages@ == refs.input_stages@
    &&& cfg.assembly.answer_policy_backend@ == refs.answer_policy_backend@
    &&& cfg.assembly.llm_normalizer_enabled == refs.llm_normalizer_enabled
    &&& cfg.assembly.llm_normalizer_backend@ == refs.llm_normalizer_backend@
    &&& cfg.assembly.memory_enabled == refs.memory_enabled
    &&& cfg.assembly.memory_backend@ == refs.memory_backend@
    &&& cfg.assembly.audit_sink@ == refs.audit_sink@
    &&& cfg.assembly.guardrails@ == refs.guardrails@
    &&& cfg.assembly.extractors@ == refs.slot_extractors@
    &&& cfg.assembly.pipeline_evaluators@ == refs.pipeline_evaluators@
    &&& cfg.assembly.response_evaluators@ == refs.response_evaluators@
    &&& cfg.assembly.fixtures@ == refs.eval_fixtures@
    &&& cfg.assembly.baseline@ == refs.response_baseline@
    &&& cfg.input_stages@ == refs.input_stages@
}

impl RuntimeConfig {
    /// Assembles the runtime configuration from the parsed packs: the injection patterns must
    /// compile, the audit failure policy must be known, and the result must pass
    /// [`validate`](Self::validate).
    pub fn from_packs(
        refs: &crate::config::RuntimeRefs,
        intents: IntentPack,
        lexicon: LexiconPack,
        thresholds: Thresholds,
        injection: InjectionRuleSet,
        registry: &BuiltinRegistry,
    ) -> (r: RuntimeResult<Self>)
        ensures
            !(forall|i: int|
                0 <= i < injection.patterns@.len() ==> regex_valid(#[trigger] injection.patterns@[i]@))
                ==> (r matches Err(RuntimeError::Config(e)) && e@.len() >= 27 && e@.subrange(0, 27)
                == injection_error_prefix()),
            r matches Ok(cfg) ==> assembled_from(cfg, *refs, intents, lexicon, thresholds, injection)
                && config_valid(cfg, *registry) && (refs.audit_failure_policy@ == "fail-open"@ ==> cfg.assembly.audit_failure_policy == AuditFailurePolicy::FailOpen)
                && (refs.audit_failure_policy@ == "fail-closed"@ ==> cfg.assembly.audit_failure_policy == AuditFailurePolicy::FailClosed),
            (forall|i: int|
                0 <= i < injection.patterns@.len() ==> regex_valid(#[trigger] injection.patterns@[i]@))
                && refs.audit_failure_policy@ != "fail-open"@ && refs.audit_failure_policy@
                != "fail-closed"@ ==> (r matches Err(e) && is_unknown_module(
                e,
                refs.audit_failure_policy@,
                "runtime.audit"@,
            )),
            r is Err && (forall|i: int|
                0 <= i < injection.patterns@.len() ==> regex_valid(#[trigger] injection.patterns@[i]@))
                && (refs.audit_failure_policy@ == "fail-open"@ || refs.audit_failure_policy@
                == "fail-closed"@) ==> exists|cfg: RuntimeConfig|
                assembled_from(cfg, *refs, intents, lexicon, thresholds, injection)
                    && !config_valid(cfg, *registry),
    {
        let injection_detector = match InjectionDetector::new(injection.version, injection.patterns.clone()) {
            Ok(d) => d,
            Err(err) => {
                proof {
                    reveal_strlit("invalid injection pattern: ");
                }
                let e = concat2("invalid injection pattern: ", err.as_str());
                assert(e@.subrange(0, 27) =~= injection_error_prefix());
                return Err(RuntimeError::Config(e));
            },
        };
        let audit_failure_policy = parse_audit_failure_policy(refs.audit_failure_policy.as_str())?;
        let assembly = Assembly {
            input_stages: refs.input_stages.clone(),
            answer_policy_backend: refs.answer_policy_backend.clone(),
            llm_normalizer_enabled: refs.llm_normalizer_enabled,
            llm_normalizer_backend: refs.llm_normalizer_backend.clone(),
            memory_enabled: refs.memory_enabled,
            memory_backend: refs.memory_backend.clone(),
            audit_sink: refs.audit_sink.clone(),
            audit_failure_policy,
            guardrails: refs.guardrails.clone(),
            extractors: refs.slot_extractors.clone(),
            pipeline_evaluators: refs.pipeline_evaluators.clone(),
            response_evaluators: refs.response_evaluators.clone(),
            fixtures: refs.eval_fixtures.clone(),
            baseline: refs.response_baseline.clone(),
        };
        let input = InputConfig { max_prompt_chars: thresholds.input.max_prompt_chars };
        let input_stages = refs.input_stages.clone();
        let cfg = RuntimeConfig {
            intent_allowlist: intents.intent_allowlist,
            intents: intents.intents,
            option_prefixes: intents.option_prefixes,
            metric_aliases: lexicon.metric_aliases,
            asset_allowlist: lexicon.asset_allowlist,
            input,
            thresholds,
            injection_detector,
            assembly,
            input_stages,
        };
        cfg.validate(registry)?;
        Ok(cfg)
    }
}

} // verus!
