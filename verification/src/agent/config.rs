//! The authored sub-agent configuration surface and the boot resolution rules that need no
//! network: provider defaults, secret references and position-derived output shaping.

use vstd::prelude::*;

use crate::agent::tools::{tool_name, ToolId};
use crate::search::{first_where, lemma_first_where_none, lemma_first_where_some};
use crate::text::{concat2, str_eq, to_owned_string};

verus! {

/// Stable identity of a sub-agent.
#[derive(PartialEq, Eq, Hash, Debug)]
pub struct SubAgentId(pub String);

impl Clone for SubAgentId {
    /// The same id.
    fn clone(&self) -> (r: Self)
        ensures
            r == *self,
    {
        SubAgentId(self.0.clone())
    }
}

/// Stable identity of a pipeline.
#[derive(PartialEq, Eq, Hash, Debug)]
pub struct PipelineId(pub String);

impl Clone for PipelineId {
    /// The same id.
    fn clone(&self) -> (r: Self)
        ensures
            r == *self,
    {
        PipelineId(self.0.clone())
    }
}

/// A secret reference: the config carries a key name, the environment supplies the value.
#[derive(PartialEq, Eq, Debug)]
pub struct SecretRef(pub String);

impl Clone for SecretRef {
    /// The same reference.
    fn clone(&self) -> (r: Self)
        ensures
            r == *self,
    {
        SecretRef(self.0.clone())
    }
}

/// The LLM provider: a known set with a `Custom` escape hatch.
#[derive(PartialEq, Eq, Debug)]
pub enum Provider {
    /// Hosted OpenRouter, keyed by the fixed `OPENROUTER_API_KEY` secret.
    OpenRouter,
    /// Local Ollama, keyless; `endpoint` defaults to `http://localhost:11434/v1`.
    Ollama { endpoint: Option<String> },
    /// Any other OpenAI-compatible endpoint, named and located by the author.
    Custom { name: String, endpoint: String, api_key: Option<SecretRef> },
}

/// The OpenRouter default base URL.
pub open spec fn openrouter_url() -> Seq<char> {
    "https://openrouter.ai/api/v1"@
}

/// The Ollama default base URL.
pub open spec fn ollama_url() -> Seq<char> {
    "http://localhost:11434/v1"@
}

/// The secret key OpenRouter authenticates with.
pub open spec fn openrouter_key() -> Seq<char> {
    "OPENROUTER_API_KEY"@
}

impl Provider {
    /// The default base URL of a known provider; `None` when the variant carries its own
    /// endpoint (`Custom`, or `Ollama` with its endpoint set).
    pub fn default_base_url(&self) -> (r: Option<&'static str>)
        ensures
            match *self {
                Provider::OpenRouter => r is Some && r->0@ == openrouter_url(),
                Provider::Ollama { endpoint: None } => r is Some && r->0@ == ollama_url(),
                Provider::Ollama { endpoint: Some(_) } => r is None,
                Provider::Custom { .. } => r is None,
            },
    {
        match self {
            Provider::OpenRouter => Some("https://openrouter.ai/api/v1"),
            Provider::Ollama { endpoint: None } => Some("http://localhost:11434/v1"),
            Provider::Ollama { endpoint: Some(_) } => None,
            Provider::Custom { .. } => None,
        }
    }

    /// The secret key this provider authenticates with, if any (`None` for keyless Ollama).
    pub fn secret_ref(&self) -> (r: Option<SecretRef>)
        ensures
            match *self {
                Provider::OpenRouter => r matches Some(SecretRef(k)) && k@ == openrouter_key(),
                Provider::Ollama { .. } => r is None,
                Provider::Custom { api_key, .. } => r == api_key,
            },
    {
        match self {
            Provider::OpenRouter => Some(SecretRef(to_owned_string("OPENROUTER_API_KEY"))),
            Provider::Ollama { .. } => None,
            Provider::Custom { api_key, .. } => match api_key {
                Some(k) => Some(k.clone()),
                None => None,
            },
        }
    }
}

/// The output variant a config-defined agent shapes its result into.
#[derive(Clone, Copy, PartialEq, Eq, Debug)]
pub enum OutputShape {
    /// Working data for a downstream agent.
    Intermediate,
    /// The user-facing terminal result.
    Final,
}

/// How hard the model should reason before answering.
#[derive(Clone, Copy, PartialEq, Eq, Debug)]
pub enum ReasoningEffort {
    /// The smallest reasoning budget the provider offers.
    Minimal,
    /// A low reasoning budget.
    Low,
    /// The provider's medium reasoning budget.
    Medium,
    /// A high reasoning budget.
    High,
}

/// A pipeline: an ordered list of sub-agent references.
#[derive(Debug)]
pub struct PipelineConfig {
    pub id: PipelineId,
    pub stages: Vec<SubAgentId>,
}

/// A boot/resolution failure, surfaced before any LLM call.
#[derive(Debug, PartialEq, Eq)]
pub enum ResolveError {
    /// A granted tool has no registry entry.
    UnknownTool(ToolId),
    /// A referenced secret key has no matching environment entry.
    MissingSecret(String),
    /// No model in the agent config or the default LLM.
    MissingModel(SubAgentId),
    /// A pipeline names a sub-agent id that was never defined.
    UnknownAgentRef { pipeline: PipelineId, agent: SubAgentId },
    /// `output` was left unset and the agent is terminal in one pipeline and non-terminal in
    /// another.
    AmbiguousOutput(SubAgentId),
}

/// The human-readable text of a resolution error.
pub open spec fn resolve_error_text(e: ResolveError) -> Seq<char> {
    match e {
        ResolveError::UnknownTool(t) => "no registry entry for tool `"@ + tool_name(t) + "`"@,
        ResolveError::MissingSecret(k) => "secret `"@ + k@ + "` not present in environment"@,
        ResolveError::MissingModel(a) => "sub-agent `"@ + a.0@
            + "` has no model and the default LLM sets none"@,
        ResolveError::UnknownAgentRef { pipeline, agent } => "pipeline `"@ + pipeline.0@
            + "` references unknown sub-agent `"@ + agent.0@ + "`"@,
        ResolveError::AmbiguousOutput(a) => "sub-agent `"@ + a.0@ + ambiguous_tail(),
    }
}

/// The fixed tail of the ambiguous-output message.
pub open spec fn ambiguous_tail() -> Seq<char> {
    "` has no explicit `output` and its position is ambiguous across pipelines (terminal in one, non-terminal in another) — set `output` explicitly"@
}

/// `a`, `b`, `c` and `d` in sequence.
fn concat4(a: &str, b: &str, c: &str, d: &str) -> (s: String)
    ensures
        s@ == a@ + b@ + c@ + d@,
{
    let ab = concat2(a, b);
    let cd = concat2(c, d);
    let s = concat2(ab.as_str(), cd.as_str());
    assert(s@ =~= a@ + b@ + c@ + d@);
    s
}

impl ResolveError {
    /// The error's message.
    pub fn message(&self) -> (r: String)
        ensures
            r@ == resolve_error_text(*self),
    {
        match self {
            ResolveError::UnknownTool(t) => {
                let a = concat2("no registry entry for tool `", t.as_str());
                concat2(a.as_str(), "`")
            },
            ResolveError::MissingSecret(k) => {
                let a = concat2("secret `", k.as_str());
                concat2(a.as_str(), "` not present in environment")
            },
            ResolveError::MissingModel(a) => {
                let s = concat2("sub-agent `", a.0.as_str());
                concat2(s.as_str(), "` has no model and the default LLM sets none")
            },
            ResolveError::UnknownAgentRef { pipeline, agent } => {
                let head = concat4(
                    "pipeline `",
                    pipeline.0.as_str(),
                    "` references unknown sub-agent `",
                    agent.0.as_str(),
                );
                let r = concat2(head.as_str(), "`");
                assert(r@ =~= resolve_error_text(*self));
                r
            },
            ResolveError::AmbiguousOutput(a) => {
                let s = concat2("sub-agent `", a.0.as_str());
                concat2(
                    s.as_str(),
                    "` has no explicit `output` and its position is ambiguous across pipelines (terminal in one, non-terminal in another) — set `output` explicitly",
                )
            },
        }
    }
}

/// `id` is the last stage of `stages`.
pub open spec fn terminal_in(id: Seq<char>, stages: Seq<SubAgentId>) -> bool {
    stages.len() > 0 && stages.last().0@ == id
}

/// `id` appears at some stage of `stages` other than the last.
pub open spec fn non_terminal_in(id: Seq<char>, stages: Seq<SubAgentId>) -> bool {
    exists|i: int| 0 <= i < stages.len() - 1 && (#[trigger] stages[i]).0@ == id
}

/// `id` is terminal in some pipeline of `ps`.
pub open spec fn terminal_somewhere(id: Seq<char>, ps: Seq<PipelineConfig>) -> bool {
    exists|k: int| 0 <= k < ps.len() && terminal_in(id, (#[trigger] ps[k]).stages@)
}

/// `id` is non-terminal in some pipeline of `ps`.
pub open spec fn non_terminal_somewhere(id: Seq<char>, ps: Seq<PipelineConfig>) -> bool {
    exists|k: int| 0 <= k < ps.len() && non_terminal_in(id, (#[trigger] ps[k]).stages@)
}

/// Whether `id` is the last of `stages`.
fn is_terminal_stage(id: &SubAgentId, stages: &Vec<SubAgentId>) -> (r: bool)
    ensures
        r == terminal_in(id.0@, stages@),
{
    if stages.len() == 0 {
        false
    } else {
        str_eq(stages[stages.len() - 1].0.as_str(), id.0.as_str())
    }
}

/// Whether `id` occurs before the last of `stages`.
fn is_non_terminal_stage(id: &SubAgentId, stages: &Vec<SubAgentId>) -> (r: bool)
    ensures
        r == non_terminal_in(id.0@, stages@),
{
    if stages.len() == 0 {
        return false;
    }
    let last = stages.len() - 1;
    let mut i: usize = 0;
    while i < last
        invariant
            last == stages.len() - 1,
            i <= last,
            forall|j: int| 0 <= j < i ==> (#[trigger] stages@[j]).0@ != id.0@,
        decreases last - i,
    {
        if str_eq(stages[i].0.as_str(), id.0.as_str()) {
            return true;
        }
        i += 1;
    }
    false
}

/// Derives the output shape an agent produces: the configured value wins; otherwise the agent's
/// position across every pipeline that references it decides (terminal everywhere: `Final`;
/// non-terminal everywhere or unreferenced: `Intermediate`; both: `AmbiguousOutput`).
pub fn effective_output(
    id: &SubAgentId,
    configured: Option<OutputShape>,
    pipelines: &[PipelineConfig],
) -> (r: Result<OutputShape, ResolveError>)
    ensures
        configured is Some ==> r == Ok::<OutputShape, ResolveError>(configured->0),
        configured is None ==> {
            let t = terminal_somewhere(id.0@, pipelines@);
            let n = non_terminal_somewhere(id.0@, pipelines@);
            &&& (t && n) ==> (r matches Err(ResolveError::AmbiguousOutput(a)) && a == *id)
            &&& (t && !n) ==> r == Ok::<OutputShape, ResolveError>(OutputShape::Final)
            &&& !t ==> r == Ok::<OutputShape, ResolveError>(OutputShape::Intermediate)
        },
{
    if let Some(shape) = configured {
        return Ok(shape);
    }
    let mut any_terminal = false;
    let mut any_non_terminal = false;
    let mut k: usize = 0;
    while k < pipelines.len()
        invariant
            k <= pipelines.len(),
            any_terminal == exists|j: int|
                0 <= j < k && terminal_in(id.0@, (#[trigger] pipelines@[j]).stages@),
            any_non_terminal == exists|j: int|
                0 <= j < k && non_terminal_in(id.0@, (#[trigger] pipelines@[j]).stages@),
        decreases pipelines.len() - k,
    {
        let t = is_terminal_stage(id, &pipelines[k].stages);
        let n = is_non_terminal_stage(id, &pipelines[k].stages);
        proof {
            if t {
                assert(terminal_in(id.0@, pipelines@[k as int].stages@));
            }
            if n {
                assert(non_terminal_in(id.0@, pipelines@[k as int].stages@));
            }
        }
        any_terminal = any_terminal || t;
        any_non_terminal = any_non_terminal || n;
        k += 1;
    }
    if any_terminal && any_non_terminal {
        Err(ResolveError::AmbiguousOutput(id.clone()))
    } else if any_terminal {
        Ok(OutputShape::Final)
    } else {
        Ok(OutputShape::Intermediate)
    }
}


impl Clone for Provider {
    /// The same provider.
    fn clone(&self) -> (r: Self)
        ensures
            r == *self,
    {
        match self {
            Provider::OpenRouter => Provider::OpenRouter,
            Provider::Ollama { endpoint } => Provider::Ollama {
                endpoint: match endpoint {
                    Some(e) => Some(e.clone()),
                    None => None,
                },
            },
            Provider::Custom { name, endpoint, api_key } => Provider::Custom {
                name: name.clone(),
                endpoint: endpoint.clone(),
                api_key: match api_key {
                    Some(k) => Some(k.clone()),
                    None => None,
                },
            },
        }
    }
}

/// Per-field sampling overrides. Temperature and top-p are carried as the bit patterns of their
/// `f32` values (`f32::to_bits`): resolution only chooses between them, never computes with them.
#[derive(Clone, Copy, PartialEq, Eq, Debug, Default)]
pub struct GenerationParams {
    pub temperature_bits: Option<u32>,
    pub top_p_bits: Option<u32>,
    pub max_tokens: Option<u32>,
}

/// A sub-agent's LLM config, all optional, stating only what differs from the default LLM: the
/// provider is atomic (overridden or inherited whole); the model and each parameter merge on
/// their own.
#[derive(PartialEq, Eq, Debug, Default)]
pub struct LlmConfig {
    pub provider: Option<Provider>,
    pub model: Option<String>,
    pub params: GenerationParams,
}

/// A fully resolved LLM, with no optional choice left but the key (keyless providers), the
/// reasoning budget (`None` keeps the provider's) and the app attribution.
#[derive(PartialEq, Eq, Debug)]
pub struct ResolvedLlm {
    pub provider: Provider,
    pub base_url: String,
    pub model: String,
    pub temperature_bits: u32,
    pub top_p_bits: u32,
    pub max_tokens: u32,
    pub api_key: Option<String>,
    pub reasoning_effort: Option<ReasoningEffort>,
    pub app_url: Option<String>,
    pub app_title: Option<String>,
}

/// A copy of an optional string.
fn copy_text(o: &Option<String>) -> (r: Option<String>)
    ensures
        r == *o,
{
    match o {
        Some(s) => Some(s.clone()),
        None => None,
    }
}

impl ResolvedLlm {
    /// The same resolution with the reasoning budget set (a mechanical stage's lower budget).
    pub fn with_reasoning_effort(&self, effort: ReasoningEffort) -> (r: Self)
        ensures
            r == (ResolvedLlm { reasoning_effort: Some(effort), ..*self }),
    {
        ResolvedLlm {
            provider: self.provider.clone(),
            base_url: self.base_url.clone(),
            model: self.model.clone(),
            temperature_bits: self.temperature_bits,
            top_p_bits: self.top_p_bits,
            max_tokens: self.max_tokens,
            api_key: copy_text(&self.api_key),
            reasoning_effort: Some(effort),
            app_url: copy_text(&self.app_url),
            app_title: copy_text(&self.app_title),
        }
    }
}

/// The secret key a provider authenticates with, if any.
pub open spec fn secret_key(p: Provider) -> Option<Seq<char>> {
    match p {
        Provider::OpenRouter => Some(openrouter_key()),
        Provider::Ollama { .. } => None,
        Provider::Custom { api_key, .. } => match api_key {
            Some(k) => Some(k.0@),
            None => None,
        },
    }
}

/// Entry `i` of the environment has key `key`.
pub open spec fn env_key_at(env: Seq<(String, String)>, key: Seq<char>) -> spec_fn(int) -> bool {
    |i: int| env[i].0@ == key
}

/// The value the environment gives `key` (its first entry with that key).
pub open spec fn env_value(env: Seq<(String, String)>, key: Seq<char>) -> Option<Seq<char>> {
    match first_where(env.len() as int, env_key_at(env, key)) {
        Some(i) => Some(env[i].1@),
        None => None,
    }
}

/// Reads the provider's secret from the environment: `Ok(None)` for a keyless provider,
/// `MissingSecret` when the key is absent.
pub fn bind_secret(provider: &Provider, env: &[(String, String)]) -> (r: Result<
    Option<String>,
    ResolveError,
>)
    ensures
        match secret_key(*provider) {
            None => r == Ok::<Option<String>, ResolveError>(None),
            Some(k) => match env_value(env@, k) {
                Some(v) => r matches Ok(Some(s)) && s@ == v,
                None => r matches Err(ResolveError::MissingSecret(m)) && m@ == k,
            },
        },
{
    match provider.secret_ref() {
        None => Ok(None),
        Some(SecretRef(key)) => {
            let ghost k = key@;
            let mut i: usize = 0;
            while i < env.len()
                invariant
                    i <= env.len(),
                    k == key@,
                    secret_key(*provider) == Some(k),
                    forall|j: int| 0 <= j < i ==> !#[trigger] env_key_at(env@, k)(j),
                decreases env.len() - i,
            {
                if str_eq(env[i].0.as_str(), key.as_str()) {
                    proof {
                        lemma_first_where_some(env@.len() as int, env_key_at(env@, k), i as int);
                    }
                    return Ok(Some(env[i].1.clone()));
                }
                i += 1;
            }
            proof {
                lemma_first_where_none(env@.len() as int, env_key_at(env@, k));
            }
            Err(ResolveError::MissingSecret(key))
        },
    }
}

/// The base URL a resolved provider is reached at: the endpoint the variant carries when set,
/// else the known provider's default.
pub open spec fn base_url_of(p: Provider) -> Seq<char> {
    match p {
        Provider::OpenRouter => openrouter_url(),
        Provider::Ollama { endpoint: Some(e) } => e@,
        Provider::Ollama { endpoint: None } => ollama_url(),
        Provider::Custom { endpoint, .. } => endpoint@,
    }
}

/// The provider a resolution ends with: the override's, whole, or the default's.
pub open spec fn merged_provider(default: ResolvedLlm, over: Option<LlmConfig>) -> Provider {
    match over {
        Some(o) => match o.provider {
            Some(p) => p,
            None => default.provider,
        },
        None => default.provider,
    }
}

/// The override's value for a field, or the default's.
pub open spec fn or_default<T>(o: Option<T>, d: T) -> T {
    match o {
        Some(v) => v,
        None => d,
    }
}

/// The override config, if any.
pub open spec fn opt_config(over: Option<&LlmConfig>) -> Option<LlmConfig> {
    match over {
        Some(c) => Some(*c),
        None => None,
    }
}

/// The parameters an override sets (none without one).
pub open spec fn params_of(o: Option<LlmConfig>) -> GenerationParams {
    match o {
        Some(c) => c.params,
        None => GenerationParams { temperature_bits: None, top_p_bits: None, max_tokens: None },
    }
}

/// The secret key the resolved provider needs but the environment lacks, if any.
pub open spec fn missing_secret(
    default: ResolvedLlm,
    o: Option<LlmConfig>,
    env: Seq<(String, String)>,
) -> Option<Seq<char>> {
    match secret_key(merged_provider(default, o)) {
        Some(k) => if env_value(env, k) is None {
            Some(k)
        } else {
            None
        },
        None => None,
    }
}

/// `l` is the merge of `o` over `default` with the secret bound from `env`.
pub open spec fn resolved_as(
    l: ResolvedLlm,
    default: ResolvedLlm,
    o: Option<LlmConfig>,
    env: Seq<(String, String)>,
) -> bool {
    let p = merged_provider(default, o);
    let params = params_of(o);
    &&& l.provider == p
    &&& l.base_url@ == base_url_of(p)
    &&& l.model == match o {
        Some(c) => or_default(c.model, default.model),
        None => default.model,
    }
    &&& l.temperature_bits == or_default(params.temperature_bits, default.temperature_bits)
    &&& l.top_p_bits == or_default(params.top_p_bits, default.top_p_bits)
    &&& l.max_tokens == or_default(params.max_tokens, default.max_tokens)
    &&& match secret_key(p) {
        Some(k) => l.api_key matches Some(v) && Some(v@) == env_value(env, k),
        None => l.api_key is None,
    }
    &&& l.reasoning_effort is None
    &&& l.app_url is None
    &&& l.app_title is None
}

/// Resolves a sub-agent's LLM by merging its overrides over the default LLM: the provider is
/// taken whole from the override or inherited, and its base URL follows it; the model and each
/// parameter merge field by field; the resolved provider's secret is bound from `env` (failing
/// when absent); the reasoning budget and app attribution are left unset.
pub fn resolve_llm(
    agent: &SubAgentId,
    default: &ResolvedLlm,
    over: Option<&LlmConfig>,
    env: &[(String, String)],
) -> (r: Result<ResolvedLlm, ResolveError>)
    ensures
        missing_secret(*default, opt_config(over), env@) matches Some(k) ==> (r matches Err(
            ResolveError::MissingSecret(m),
        ) && m@ == k),
        missing_secret(*default, opt_config(over), env@) is None ==> (r matches Ok(l) && resolved_as(
            l,
            *default,
            opt_config(over),
            env@,
        )),
{
    let provider = match over {
        Some(c) => match &c.provider {
            Some(p) => p.clone(),
            None => default.provider.clone(),
        },
        None => default.provider.clone(),
    };
    let base_url = match provider.default_base_url() {
        Some(u) => to_owned_string(u),
        None => match &provider {
            Provider::Custom { endpoint, .. } => endpoint.clone(),
            Provider::Ollama { endpoint: Some(e) } => e.clone(),
            _ => default.base_url.clone(),
        },
    };
    let model = match over {
        Some(c) => match &c.model {
            Some(m) => m.clone(),
            None => default.model.clone(),
        },
        None => default.model.clone(),
    };
    let params = match over {
        Some(c) => c.params,
        None => GenerationParams { temperature_bits: None, top_p_bits: None, max_tokens: None },
    };
    let api_key = bind_secret(&provider, env)?;
    Ok(
        ResolvedLlm {
            provider,
            base_url,
            model,
            temperature_bits: match params.temperature_bits {
                Some(t) => t,
                None => default.temperature_bits,
            },
            top_p_bits: match params.top_p_bits {
                Some(t) => t,
                None => default.top_p_bits,
            },
            max_tokens: match params.max_tokens {
                Some(t) => t,
                None => default.max_tokens,
            },
            api_key,
            reasoning_effort: None,
            app_url: None,
            app_title: None,
        },
    )
}

} // verus!
