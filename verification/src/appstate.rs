//! Process-wide decisions made once at boot: the prompt bank pulled out of the loaded config and
//! the runtime route flag.

use vstd::prelude::*;

use crate::config::{err_missing_prompt, prompt_lookup, AppConfig, RuntimeRefs};
use crate::runtime::audit::AuditFailurePolicy;
use crate::runtime::config::RuntimeConfig;
use crate::runtime::error::RuntimeResult;
use crate::runtime::guardrails::answer_policy::RuleAnswerPolicy;
use crate::runtime::input::pipeline::InputPipeline;
use crate::runtime::llm_normalizer::DisabledLlmNormalizer;
use crate::runtime::memory::store::InMemorySessionStore;
use crate::runtime::registry::{is_unknown_module, BuiltinRegistry, ModuleFamily};
use crate::text::{eq_ignore_ascii_case, eq_ignore_ascii_case_seq, str_eq, to_owned_string, trim,
    trim_seq};

verus! {

/// The runtime-loaded prompts the analytical and greeting endpoints use.
#[derive(Debug)]
pub struct PromptBank {
    /// System prompt for the analytical endpoints.
    pub agent_system: String,
    /// System prompt for the greeting generator.
    pub greeting_system: String,
    /// User-side stub passed alongside `greeting_system`.
    pub greeting_user: String,
}

/// The first of the three required prompt ids that is missing, in the order they are read.
pub open spec fn first_missing_prompt(prompts: Seq<(String, String)>) -> Option<Seq<char>> {
    if prompt_lookup(prompts, "agent_system"@) is None {
        Some("agent_system"@)
    } else if prompt_lookup(prompts, "greeting_system"@) is None {
        Some("greeting_system"@)
    } else if prompt_lookup(prompts, "greeting_user"@) is None {
        Some("greeting_user"@)
    } else {
        None
    }
}

impl PromptBank {
    /// Pulls the three required prompts (`agent_system`, `greeting_system`, `greeting_user`) out
    /// of the loaded config; the error names the first that is missing.
    pub fn from_app_config(cfg: &AppConfig) -> (r: Result<Self, String>)
        ensures
            match first_missing_prompt(cfg.prompts@) {
                Some(id) => r matches Err(e) && e@ == err_missing_prompt(id),
                None => r matches Ok(bank) && Some(bank.agent_system@) == prompt_lookup(
                    cfg.prompts@,
                    "agent_system"@,
                ) && Some(bank.greeting_system@) == prompt_lookup(
                    cfg.prompts@,
                    "greeting_system"@,
                ) && Some(bank.greeting_user@) == prompt_lookup(cfg.prompts@, "greeting_user"@),
            },
    {
        let agent_system = to_owned_string(cfg.get_prompt_by_id("agent_system")?);
        let greeting_system = to_owned_string(cfg.get_prompt_by_id("greeting_system")?);
        let greeting_user = to_owned_string(cfg.get_prompt_by_id("greeting_user")?);
        Ok(PromptBank { agent_system, greeting_system, greeting_user })
    }
}

/// The runtime route is on unless the flag, trimmed, is `0` or `false` in any ASCII case.
pub open spec fn runtime_enabled(flag: Option<Seq<char>>) -> bool {
    match flag {
        Some(v) => !(trim_seq(v) == "0"@ || eq_ignore_ascii_case_seq(trim_seq(v), "false"@)),
        None => true,
    }
}

/// Resolves the runtime route flag with cutover semantics: on by default, with an explicit
/// rollback.
pub fn runtime_enabled_from_env(value: Option<&str>) -> (r: bool)
    ensures
        r == runtime_enabled(match value {
            Some(v) => Some(v@),
            None => None,
        }),
{
    match value {
        None => true,
        Some(v) => {
            let t = trim(v);
            !(str_eq(t.as_str(), "0") || eq_ignore_ascii_case(t.as_str(), "false"))
        },
    }
}


/// The rejection of a runtime route that is on without a `[runtime]` section.
pub open spec fn err_runtime_missing() -> Seq<char> {
    "runtime enabled but [runtime] config missing"@
}

/// The runtime references to load for the route flag: none when the flag rolls the runtime back
/// (whatever the config holds); the configured references when it is on; an error when it is on
/// but the config has no `[runtime]` section, so the cutover never silently falls back.
pub fn runtime_refs_for_flag<'a>(app_config: &'a AppConfig, runtime_flag: Option<&str>) -> (r: Result<
    Option<&'a RuntimeRefs>,
    String,
>)
    ensures
        !runtime_enabled(match runtime_flag {
            Some(v) => Some(v@),
            None => None,
        }) ==> r matches Ok(None),
        runtime_enabled(match runtime_flag {
            Some(v) => Some(v@),
            None => None,
        }) ==> match app_config.runtime {
            None => r matches Err(e) && e@ == err_runtime_missing(),
            Some(refs) => r matches Ok(Some(x)) && *x == refs,
        },
{
    if !runtime_enabled_from_env(runtime_flag) {
        return Ok(None);
    }
    match &app_config.runtime {
        None => Err(to_owned_string("runtime enabled but [runtime] config missing")),
        Some(refs) => Ok(Some(refs)),
    }
}

/// The runtime a process runs turns with, assembled from a loaded pack.
pub struct AppRuntime {
    pub enabled: bool,
    pub audit_failure_policy: AuditFailurePolicy,
    pub config: RuntimeConfig,
    pub input_pipeline: InputPipeline,
    pub answer_policy: RuleAnswerPolicy,
    pub llm_normalizer: Option<DisabledLlmNormalizer>,
    pub sessions: Option<InMemorySessionStore>,
}

/// Assembles the runtime from a loaded pack, building (in order) the answer policy, the LLM
/// normalizer, the session memory, and checking the audit sink; the first unknown module id
/// fails the assembly.
pub fn assemble_runtime(config: RuntimeConfig, registry: &BuiltinRegistry) -> (r: RuntimeResult<
    AppRuntime,
>)
    ensures
        !registry.knows(ModuleFamily::AnswerPolicy, config.assembly.answer_policy_backend@) ==> (r matches Err(e)
            && is_unknown_module(e, config.assembly.answer_policy_backend@, "runtime.answer_policy"@)),
        registry.knows(ModuleFamily::AnswerPolicy, config.assembly.answer_policy_backend@) && !registry.knows(
            ModuleFamily::LlmNormalizer,
            config.assembly.llm_normalizer_backend@,
        ) ==> (r matches Err(e) && is_unknown_module(
            e,
            config.assembly.llm_normalizer_backend@,
            "runtime.llm_normalizer"@,
        )),
        registry.knows(ModuleFamily::AnswerPolicy, config.assembly.answer_policy_backend@) && registry.knows(
            ModuleFamily::LlmNormalizer,
            config.assembly.llm_normalizer_backend@,
        ) && !registry.knows(ModuleFamily::MemoryBackend, config.assembly.memory_backend@) ==> (r matches Err(e)
            && is_unknown_module(e, config.assembly.memory_backend@, "runtime.memory"@)),
        registry.knows(ModuleFamily::AnswerPolicy, config.assembly.answer_policy_backend@) && registry.knows(
            ModuleFamily::LlmNormalizer,
            config.assembly.llm_normalizer_backend@,
        ) && registry.knows(ModuleFamily::MemoryBackend, config.assembly.memory_backend@) && !registry.knows(
            ModuleFamily::AuditSink,
            config.assembly.audit_sink@,
        ) ==> (r matches Err(e) && is_unknown_module(e, config.assembly.audit_sink@, "runtime.audit"@)),
        r matches Ok(rt) ==> {
            &&& rt.enabled
            &&& rt.audit_failure_policy == config.assembly.audit_failure_policy
            &&& rt.config == config
            &&& rt.input_pipeline.stages@.len() == 0
            &&& rt.answer_policy.answer_normal == config.thresholds.confidence.answer_normal
            &&& rt.answer_policy.answer_gray == config.thresholds.confidence.answer_gray
            &&& (rt.llm_normalizer is Some <==> config.assembly.llm_normalizer_enabled)
            &&& (rt.sessions is Some <==> config.assembly.memory_enabled)
            &&& (rt.sessions matches Some(store) ==> store.max_turns()
                == config.thresholds.memory.max_turns && store.sessions().len() == 0)
        },
        (registry.knows(ModuleFamily::AnswerPolicy, config.assembly.answer_policy_backend@) && registry.knows(
            ModuleFamily::LlmNormalizer,
            config.assembly.llm_normalizer_backend@,
        ) && registry.knows(ModuleFamily::MemoryBackend, config.assembly.memory_backend@) && registry.knows(
            ModuleFamily::AuditSink,
            config.assembly.audit_sink@,
        )) ==> r is Ok,
{
    let answer_policy = registry.build_answer_policy(&config)?;
    let llm_normalizer = registry.build_llm_normalizer(&config)?;
    let sessions = registry.build_memory(&config)?;
    registry.require_audit_sink(config.assembly.audit_sink.as_str(), "runtime.audit")?;
    let audit_failure_policy = config.assembly.audit_failure_policy;
    Ok(
        AppRuntime {
            enabled: true,
            audit_failure_policy,
            config,
            input_pipeline: InputPipeline::default(),
            answer_policy,
            llm_normalizer,
            sessions,
        },
    )
}

} // verus!
