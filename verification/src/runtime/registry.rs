//! Builtin runtime registry: the module ids a runtime pack may reference.

use vstd::prelude::*;

use super::config::RuntimeConfig;
use super::error::{RuntimeError, RuntimeResult};
use super::eval::evaluator::NoopEvaluator;
use super::guardrails::answer_policy::RuleAnswerPolicy;
use super::llm_normalizer::DisabledLlmNormalizer;
use super::memory::store::InMemorySessionStore;
use crate::text::{str_eq, to_owned_string};

verus! {

/// `ids` holds an entry whose text is `id`.
pub open spec fn names(ids: Seq<String>, id: Seq<char>) -> bool {
    exists|i: int| 0 <= i < ids.len() && (#[trigger] ids[i])@ == id
}

/// The texts of `ids`, in order.
pub open spec fn texts(ids: Seq<String>) -> Seq<Seq<char>> {
    ids.map_values(|s: String| s@)
}

/// `e` is the unknown-module error for `id` in `section`.
pub open spec fn is_unknown_module(e: RuntimeError, id: Seq<char>, section: Seq<char>) -> bool {
    e matches RuntimeError::UnknownModule { id: i, section: s } && i@ == id && s@ == section
}

/// Whether `ids` holds an entry equal to `id`.
pub fn list_contains(ids: &Vec<String>, id: &str) -> (r: bool)
    ensures
        r == names(ids@, id@),
{
    let mut i: usize = 0;
    while i < ids.len()
        invariant
            i <= ids.len(),
            forall|j: int| 0 <= j < i ==> (#[trigger] ids@[j])@ != id@,
        decreases ids.len() - i,
    {
        if str_eq(ids[i].as_str(), id) {
            return true;
        }
        i += 1;
    }
    false
}

/// `Ok` when `id` is known, else the unknown-module error naming `id` and `section`.
pub fn require_known(known: &Vec<String>, id: &str, section: &str) -> (r: RuntimeResult<()>)
    ensures
        r is Ok <==> names(known@, id@),
        r matches Err(e) ==> is_unknown_module(e, id@, section@),
{
    if list_contains(known, id) {
        Ok(())
    } else {
        Err(RuntimeError::UnknownModule { id: to_owned_string(id), section: to_owned_string(section) })
    }
}

/// The families of module ids the registry knows.
#[derive(Debug, Clone, Copy, PartialEq, Eq)]
pub enum ModuleFamily {
    /// Input pipeline stages.
    InputStage,
    /// Answer policy backends.
    AnswerPolicy,
    /// LLM normalizer backends.
    LlmNormalizer,
    /// Memory backends.
    MemoryBackend,
    /// Audit sinks.
    AuditSink,
    /// Guardrails.
    Guardrail,
    /// Slot extractors.
    SlotExtractor,
    /// Evaluators.
    Evaluator,
}

/// Registry of builtin module ids.
#[derive(Debug, Clone)]
pub struct BuiltinRegistry {
    input_stages: Vec<String>,
    answer_policies: Vec<String>,
    llm_normalizers: Vec<String>,
    memory_backends: Vec<String>,
    audit_sinks: Vec<String>,
    guardrails: Vec<String>,
    slot_extractors: Vec<String>,
    evaluators: Vec<String>,
}

fn push_id(v: &mut Vec<String>, s: &str)
    ensures
        texts(final(v)@) == texts(old(v)@).push(s@),
{
    v.push(to_owned_string(s));
    assert(texts(v@) =~= texts(old(v)@).push(s@));
}

fn id_list2(a: &str, b: &str) -> (v: Vec<String>)
    ensures
        texts(v@) == seq![a@, b@],
{
    let mut v: Vec<String> = Vec::new();
    v.push(to_owned_string(a));
    v.push(to_owned_string(b));
    assert(texts(v@) =~= seq![a@, b@]);
    v
}

fn id_list1(a: &str) -> (v: Vec<String>)
    ensures
        texts(v@) == seq![a@],
{
    let mut v: Vec<String> = Vec::new();
    v.push(to_owned_string(a));
    assert(texts(v@) =~= seq![a@]);
    v
}

impl BuiltinRegistry {
    /// The ids of one family.
    pub closed spec fn ids(self, family: ModuleFamily) -> Seq<String> {
        match family {
            ModuleFamily::InputStage => self.input_stages@,
            ModuleFamily::AnswerPolicy => self.answer_policies@,
            ModuleFamily::LlmNormalizer => self.llm_normalizers@,
            ModuleFamily::MemoryBackend => self.memory_backends@,
            ModuleFamily::AuditSink => self.audit_sinks@,
            ModuleFamily::Guardrail => self.guardrails@,
            ModuleFamily::SlotExtractor => self.slot_extractors@,
            ModuleFamily::Evaluator => self.evaluators@,
        }
    }

    /// Whether `id` is a known member of `family`.
    pub open spec fn knows(self, family: ModuleFamily, id: Seq<char>) -> bool {
        names(self.ids(family), id)
    }

    /// Return whether an input stage id is known.
    pub fn has_input_stage(&self, id: &str) -> (r: bool)
        ensures
            r == self.knows(ModuleFamily::InputStage, id@),
    {
        list_contains(&self.input_stages, id)
    }

    /// Validate a stage id.
    pub fn require_input_stage(&self, id: &str, section: &str) -> (r: RuntimeResult<()>)
        ensures
            r is Ok <==> self.knows(ModuleFamily::InputStage, id@),
            r matches Err(e) ==> is_unknown_module(e, id@, section@),
    {
        require_known(&self.input_stages, id, section)
    }

    /// Validate an answer policy backend id.
    pub fn require_answer_policy(&self, id: &str, section: &str) -> (r: RuntimeResult<()>)
        ensures
            r is Ok <==> self.knows(ModuleFamily::AnswerPolicy, id@),
            r matches Err(e) ==> is_unknown_module(e, id@, section@),
    {
        require_known(&self.answer_policies, id, section)
    }

    /// Validate an LLM normalizer backend id.
    pub fn require_llm_normalizer(&self, id: &str, section: &str) -> (r: RuntimeResult<()>)
        ensures
            r is Ok <==> self.knows(ModuleFamily::LlmNormalizer, id@),
            r matches Err(e) ==> is_unknown_module(e, id@, section@),
    {
        require_known(&self.llm_normalizers, id, section)
    }

    /// Validate a memory backend id.
    pub fn require_memory_backend(&self, id: &str, section: &str) -> (r: RuntimeResult<()>)
        ensures
            r is Ok <==> self.knows(ModuleFamily::MemoryBackend, id@),
            r matches Err(e) ==> is_unknown_module(e, id@, section@),
    {
        require_known(&self.memory_backends, id, section)
    }

    /// Validate an audit sink id.
    pub fn require_audit_sink(&self, id: &str, section: &str) -> (r: RuntimeResult<()>)
        ensures
            r is Ok <==> self.knows(ModuleFamily::AuditSink, id@),
            r matches Err(e) ==> is_unknown_module(e, id@, section@),
    {
        require_known(&self.audit_sinks, id, section)
    }

    /// Validate a guardrail id.
    pub fn require_guardrail(&self, id: &str, section: &str) -> (r: RuntimeResult<()>)
        ensures
            r is Ok <==> self.knows(ModuleFamily::Guardrail, id@),
            r matches Err(e) ==> is_unknown_module(e, id@, section@),
    {
        require_known(&self.guardrails, id, section)
    }

    /// Validate a slot extractor id.
    pub fn require_slot_extractor(&self, id: &str, section: &str) -> (r: RuntimeResult<()>)
        ensures
            r is Ok <==> self.knows(ModuleFamily::SlotExtractor, id@),
            r matches Err(e) ==> is_unknown_module(e, id@, section@),
    {
        require_known(&self.slot_extractors, id, section)
    }

    /// Validate an evaluator id.
    pub fn require_evaluator(&self, id: &str, section: &str) -> (r: RuntimeResult<()>)
        ensures
            r is Ok <==> self.knows(ModuleFamily::Evaluator, id@),
            r matches Err(e) ==> is_unknown_module(e, id@, section@),
    {
        require_known(&self.evaluators, id, section)
    }

    /// Validate a family's id.
    pub fn require(&self, family: ModuleFamily, id: &str, section: &str) -> (r: RuntimeResult<()>)
        ensures
            r is Ok <==> self.knows(family, id@),
            r matches Err(e) ==> is_unknown_module(e, id@, section@),
    {
        match family {
            ModuleFamily::InputStage => require_known(&self.input_stages, id, section),
            ModuleFamily::AnswerPolicy => require_known(&self.answer_policies, id, section),
            ModuleFamily::LlmNormalizer => require_known(&self.llm_normalizers, id, section),
            ModuleFamily::MemoryBackend => require_known(&self.memory_backends, id, section),
            ModuleFamily::AuditSink => require_known(&self.audit_sinks, id, section),
            ModuleFamily::Guardrail => require_known(&self.guardrails, id, section),
            ModuleFamily::SlotExtractor => require_known(&self.slot_extractors, id, section),
            ModuleFamily::Evaluator => require_known(&self.evaluators, id, section),
        }
    }

    /// Validate every id of `ids` in `family`, in order; the first unknown one fails.
    pub fn require_all(&self, family: ModuleFamily, ids: &Vec<String>, section: &str) -> (r: RuntimeResult<()>)
        ensures
            r is Ok <==> forall|i: int| 0 <= i < ids.len() ==> self.knows(family, #[trigger] ids@[i]@),
            r matches Err(e) ==> exists|i: int| 0 <= i < ids.len() && is_unknown_module(e, (#[trigger] ids@[i])@, section@)
                && !self.knows(family, ids@[i]@) && forall|j: int| 0 <= j < i ==> self.knows(family, #[trigger] ids@[j]@),
    {
        let mut i: usize = 0;
        while i < ids.len()
            invariant
                i <= ids.len(),
                forall|j: int| 0 <= j < i ==> self.knows(family, #[trigger] ids@[j]@),
            decreases ids.len() - i,
        {
            match self.require(family, ids[i].as_str(), section) {
                Ok(()) => {},
                Err(e) => {
                    assert(is_unknown_module(e, ids@[i as int]@, section@));
                    return Err(e);
                },
            }
            i += 1;
        }
        Ok(())
    }

    /// Build configured input stage ids in order, once each is known.
    pub fn build_input_pipeline(&self, cfg: &RuntimeConfig) -> (r: RuntimeResult<Vec<String>>)
        ensures
            r is Ok <==> forall|i: int| 0 <= i < cfg.assembly.input_stages.len() ==> self.knows(
                ModuleFamily::InputStage,
                #[trigger] cfg.assembly.input_stages@[i]@,
            ),
            r matches Ok(v) ==> v@ == cfg.assembly.input_stages@,
            r matches Err(e) ==> exists|i: int| 0 <= i < cfg.assembly.input_stages.len() && is_unknown_module(e, (#[trigger] cfg.assembly.input_stages@[i])@, "runtime.input"@),
    {
        match self.require_all(ModuleFamily::InputStage, &cfg.assembly.input_stages, "runtime.input") {
            Ok(()) => Ok(cfg.assembly.input_stages.clone()),
            Err(e) => Err(e),
        }
    }

    /// Build the configured answer policy from the pack's confidence thresholds.
    pub fn build_answer_policy(&self, cfg: &RuntimeConfig) -> (r: RuntimeResult<RuleAnswerPolicy>)
        ensures
            r is Ok <==> self.knows(ModuleFamily::AnswerPolicy, cfg.assembly.answer_policy_backend@),
            r matches Ok(p) ==> p.answer_normal == cfg.thresholds.confidence.answer_normal
                && p.answer_gray == cfg.thresholds.confidence.answer_gray,
            r matches Err(e) ==> is_unknown_module(e, cfg.assembly.answer_policy_backend@, "runtime.answer_policy"@),
    {
        match self.require_answer_policy(cfg.assembly.answer_policy_backend.as_str(), "runtime.answer_policy") {
            Ok(()) => Ok(RuleAnswerPolicy::new(&cfg.thresholds.confidence)),
            Err(e) => Err(e),
        }
    }

    /// Build the optional LLM normalizer: present exactly when the pack enables it.
    pub fn build_llm_normalizer(&self, cfg: &RuntimeConfig) -> (r: RuntimeResult<Option<DisabledLlmNormalizer>>)
        ensures
            r is Ok <==> self.knows(ModuleFamily::LlmNormalizer, cfg.assembly.llm_normalizer_backend@),
            r matches Ok(n) ==> (n is Some <==> cfg.assembly.llm_normalizer_enabled),
            r matches Err(e) ==> is_unknown_module(e, cfg.assembly.llm_normalizer_backend@, "runtime.llm_normalizer"@),
    {
        match self.require_llm_normalizer(cfg.assembly.llm_normalizer_backend.as_str(), "runtime.llm_normalizer") {
            Ok(()) => {
                if cfg.assembly.llm_normalizer_enabled {
                    Ok(Some(DisabledLlmNormalizer))
                } else {
                    Ok(None)
                }
            },
            Err(e) => Err(e),
        }
    }

    /// Build the optional memory store: present, empty and capped at the pack's `max_turns`,
    /// exactly when the pack enables memory.
    pub fn build_memory(&self, cfg: &RuntimeConfig) -> (r: RuntimeResult<Option<InMemorySessionStore>>)
        ensures
            r is Ok <==> self.knows(ModuleFamily::MemoryBackend, cfg.assembly.memory_backend@),
            r matches Ok(m) ==> (m is Some <==> cfg.assembly.memory_enabled),
            r matches Ok(Some(store)) ==> store.max_turns() == cfg.thresholds.memory.max_turns
                && store.sessions().len() == 0,
            r matches Err(e) ==> is_unknown_module(e, cfg.assembly.memory_backend@, "runtime.memory"@),
    {
        match self.require_memory_backend(cfg.assembly.memory_backend.as_str(), "runtime.memory") {
            Ok(()) => {
                if cfg.assembly.memory_enabled {
                    Ok(Some(InMemorySessionStore::new(cfg.thresholds.memory.max_turns)))
                } else {
                    Ok(None)
                }
            },
            Err(e) => Err(e),
        }
    }

    /// Build one no-op evaluator per configured pipeline then response evaluator id, in order.
    pub fn build_evaluators(&self, cfg: &RuntimeConfig) -> (r: RuntimeResult<Vec<NoopEvaluator>>)
        ensures
            r is Ok <==> forall|i: int| 0 <= i < (cfg.assembly.pipeline_evaluators@ + cfg.assembly.response_evaluators@).len()
                ==> self.knows(ModuleFamily::Evaluator, #[trigger] (cfg.assembly.pipeline_evaluators@ + cfg.assembly.response_evaluators@)[i]@),
            r matches Ok(v) ==> v@.map_values(|e: NoopEvaluator| e.spec_id()) == texts(cfg.assembly.pipeline_evaluators@ + cfg.assembly.response_evaluators@),
    {
        let ghost p = cfg.assembly.pipeline_evaluators@;
        let ghost q = cfg.assembly.response_evaluators@;
        let mut out: Vec<NoopEvaluator> = Vec::new();
        let mut i: usize = 0;
        while i < cfg.assembly.pipeline_evaluators.len()
            invariant
                p == cfg.assembly.pipeline_evaluators@,
                q == cfg.assembly.response_evaluators@,
                i <= p.len(),
                out.len() == i,
                forall|j: int| 0 <= j < i ==> self.knows(ModuleFamily::Evaluator, #[trigger] p[j]@),
                forall|j: int| 0 <= j < i ==> (#[trigger] out@[j]).spec_id() == p[j]@,
            decreases p.len() - i,
        {
            let id = &cfg.assembly.pipeline_evaluators[i];
            match self.require_evaluator(id.as_str(), "runtime.eval") {
                Ok(()) => {},
                Err(e) => {
                    assert((p + q)[i as int] == p[i as int]);
                    assert(!self.knows(ModuleFamily::Evaluator, (p + q)[i as int]@));
                    return Err(e);
                },
            }
            out.push(NoopEvaluator::new(id.clone()));
            i += 1;
        }
        let mut k: usize = 0;
        while k < cfg.assembly.response_evaluators.len()
            invariant
                p == cfg.assembly.pipeline_evaluators@,
                q == cfg.assembly.response_evaluators@,
                k <= q.len(),
                out.len() == p.len() + k,
                forall|j: int| 0 <= j < p.len() ==> self.knows(ModuleFamily::Evaluator, #[trigger] p[j]@),
                forall|j: int| 0 <= j < k ==> self.knows(ModuleFamily::Evaluator, #[trigger] q[j]@),
                forall|j: int| 0 <= j < p.len() + k ==> (#[trigger] out@[j]).spec_id() == (p + q)[j]@,
            decreases q.len() - k,
        {
            let id = &cfg.assembly.response_evaluators[k];
            match self.require_evaluator(id.as_str(), "runtime.eval") {
                Ok(()) => {},
                Err(e) => {
                    assert((p + q)[p.len() + k] == q[k as int]);
                    assert(!self.knows(ModuleFamily::Evaluator, (p + q)[p.len() + k]@));
                    return Err(e);
                },
            }
            out.push(NoopEvaluator::new(id.clone()));
            k += 1;
        }
        assert forall|j: int| 0 <= j < (p + q).len() implies self.knows(ModuleFamily::Evaluator, #[trigger] (p + q)[j]@) by {
            if j >= p.len() {
                assert((p + q)[j] == q[j - p.len()]);
            }
        }
        assert(out@.map_values(|e: NoopEvaluator| e.spec_id()) =~= texts(p + q));
        Ok(out)
    }
}

impl Default for BuiltinRegistry {
    /// The builtin ids: five input stages, the `rule` policy, the `disabled` normalizer, the
    /// `in-memory` backend, the `tracing` sink, three guardrails, four slot extractors and three
    /// evaluators.
    fn default() -> (r: Self)
        ensures
            texts(r.ids(ModuleFamily::InputStage)) == seq!["normalize"@, "input_guard"@, "injection"@, "intent"@, "slots"@],
            texts(r.ids(ModuleFamily::AnswerPolicy)) == seq!["rule"@],
            texts(r.ids(ModuleFamily::LlmNormalizer)) == seq!["disabled"@],
            texts(r.ids(ModuleFamily::MemoryBackend)) == seq!["in-memory"@],
            texts(r.ids(ModuleFamily::AuditSink)) == seq!["tracing"@],
            texts(r.ids(ModuleFamily::Guardrail)) == seq!["injection"@, "input_guard"@, "answer_policy"@],
            texts(r.ids(ModuleFamily::SlotExtractor)) == seq!["time_range"@, "metric"@, "asset"@, "rank_limit"@],
            texts(r.ids(ModuleFamily::Evaluator)) == seq!["pipeline-deterministic"@, "response-baseline"@, "llm-judge"@],
    {
        let mut input_stages = id_list2("normalize", "input_guard");
        push_id(&mut input_stages, "injection");
        push_id(&mut input_stages, "intent");
        push_id(&mut input_stages, "slots");
        let mut guardrails = id_list2("injection", "input_guard");
        push_id(&mut guardrails, "answer_policy");
        let mut slot_extractors = id_list2("time_range", "metric");
        push_id(&mut slot_extractors, "asset");
        push_id(&mut slot_extractors, "rank_limit");
        let mut evaluators = id_list2("pipeline-deterministic", "response-baseline");
        push_id(&mut evaluators, "llm-judge");
        let r = BuiltinRegistry {
            input_stages,
            answer_policies: id_list1("rule"),
            llm_normalizers: id_list1("disabled"),
            memory_backends: id_list1("in-memory"),
            audit_sinks: id_list1("tracing"),
            guardrails,
            slot_extractors,
            evaluators,
        };
        assert(texts(r.ids(ModuleFamily::InputStage)) =~= seq!["normalize"@, "input_guard"@, "injection"@, "intent"@, "slots"@]);
        assert(texts(r.ids(ModuleFamily::Guardrail)) =~= seq!["injection"@, "input_guard"@, "answer_policy"@]);
        assert(texts(r.ids(ModuleFamily::SlotExtractor)) =~= seq!["time_range"@, "metric"@, "asset"@, "rank_limit"@]);
        assert(texts(r.ids(ModuleFamily::Evaluator)) =~= seq!["pipeline-deterministic"@, "response-baseline"@, "llm-judge"@]);
        r
    }
}

} // verus!
