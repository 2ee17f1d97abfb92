//! What each endpoint pipeline is built from: every stage's identity, instruction, reasoning
//! budget, accepted payloads, output shape and resolved tools. The builders that attach live LLM
//! clients and MCP handles to a plan are the caller's part; every decision they make is here.

use vstd::prelude::*;

use crate::agent::config::{OutputShape, PipelineId, ReasoningEffort, SubAgentId};
use crate::agent::payload::{ArtifactKey, PayloadKind};
use crate::agent::wiring::{
    code_tool, compose_fetcher_instruction, dedup_first, entry_names, expand_grant,
    fetcher_instruction, grant_names, lemma_dedup_first, no_repeats, greeting_pipeline_id, is_code_tool, views,
};
use crate::search::{first_where, lemma_first_where_none, lemma_first_where_some};
use crate::text::{concat3, str_eq, to_owned_string};

verus! {

/// A resolved stage tool: a built-in code-backed sink, or an MCP tool that fills its own
/// `{stage}.{name}` artifact slot.
#[derive(Debug)]
pub enum StageTool {
    /// A built-in sink, by name.
    Code(String),
    /// An advertised MCP tool and the artifact slot its result fills.
    Mcp { name: String, slot: ArtifactKey },
}

/// `t` is what the granted name `n` resolves to in stage `stage`: the built-in sink of that name,
/// else the MCP tool filling `{stage}.{n}`.
pub open spec fn tool_resolves(t: StageTool, stage: Seq<char>, n: Seq<char>) -> bool {
    if is_code_tool(n) {
        (t matches StageTool::Code(s) && s@ == n)
    } else {
        (t matches StageTool::Mcp { name, slot } && name@ == n && slot.agent_part() == stage
            && slot.name_part() == n)
    }
}

/// The rejection of a grant naming a tool the server never advertised.
pub open spec fn err_unadvertised_tool(name: Seq<char>) -> Seq<char> {
    "a grant names MCP tool `"@ + name + "`, which the server did not advertise"@
}

/// The discovered tool at `i` is named `name`.
pub open spec fn named_at(advertised: Seq<Seq<char>>, name: Seq<char>) -> spec_fn(int) -> bool {
    |i: int| advertised[i] == name
}

/// Looks up an advertised tool by wire name: its position in the discovered set (the first match),
/// or the rejection naming it.
pub fn tool_schema(advertised: &[String], name: &str) -> (r: Result<usize, String>)
    ensures
        match first_where(advertised@.len() as int, named_at(views(advertised@), name@)) {
            Some(i) => r == Ok::<usize, String>(i as usize),
            None => r matches Err(e) && e@ == err_unadvertised_tool(name@),
        },
        r is Err <==> !views(advertised@).contains(name@),
{
    let ghost adv = views(advertised@);
    let mut i: usize = 0;
    while i < advertised.len()
        invariant
            i <= advertised.len(),
            adv == views(advertised@),
            forall|j: int| 0 <= j < i ==> !#[trigger] named_at(adv, name@)(j),
        decreases advertised.len() - i,
    {
        if str_eq(advertised[i].as_str(), name) {
            proof {
                lemma_first_where_some(advertised@.len() as int, named_at(adv, name@), i as int);
                assert(adv.contains(name@)) by {
                    assert(adv[i as int] == name@);
                }
            }
            return Ok(i);
        }
        i += 1;
    }
    proof {
        lemma_first_where_none(advertised@.len() as int, named_at(adv, name@));
        if adv.contains(name@) {
            let k = choose|k: int| 0 <= k < adv.len() && adv[k] == name@;
            assert(named_at(adv, name@)(k));
        }
    }
    Err(concat3("a grant names MCP tool `", name, "`, which the server did not advertise"))
}

/// Whether a granted name resolves: built in, or advertised.
pub open spec fn resolvable(name: Seq<char>, advertised: Seq<Seq<char>>) -> bool {
    is_code_tool(name) || advertised.contains(name)
}

/// Resolves one granted name in stage `stage` (see [`tool_resolves`]).
pub fn build_tool(stage: &str, name: &str, advertised: &[String]) -> (r: Result<StageTool, String>)
    ensures
        resolvable(name@, views(advertised@)) ==> (r matches Ok(t) && tool_resolves(t, stage@, name@)),
        !resolvable(name@, views(advertised@)) ==> (r matches Err(e) && e@ == err_unadvertised_tool(
            name@,
        )),
{
    if code_tool(name) {
        return Ok(StageTool::Code(to_owned_string(name)));
    }
    match tool_schema(advertised, name) {
        Ok(_) => Ok(StageTool::Mcp { name: to_owned_string(name), slot: ArtifactKey::new(stage, name) }),
        Err(e) => Err(e),
    }
}

/// The names a stage's grant stands for: the wildcard expanded, first occurrences kept.
pub open spec fn granted_names(grant: Seq<Seq<char>>, advertised: Seq<Seq<char>>) -> Seq<Seq<char>> {
    dedup_first(grant_names(grant, advertised))
}

/// Granted name `i` does not resolve.
pub open spec fn unresolvable_at(names: Seq<Seq<char>>, advertised: Seq<Seq<char>>) -> spec_fn(
    int,
) -> bool {
    |i: int| !resolvable(names[i], advertised)
}

/// The first unresolvable name of a stage's grant, as its rejection.
pub open spec fn stage_tools_check(grant: Seq<Seq<char>>, advertised: Seq<Seq<char>>) -> Option<
    Seq<char>,
> {
    let names = granted_names(grant, advertised);
    match first_where(names.len() as int, unresolvable_at(names, advertised)) {
        Some(i) => Some(err_unadvertised_tool(names[i])),
        None => None,
    }
}

/// `ts` are the granted names resolved in stage `stage`, in order.
pub open spec fn tools_resolve(ts: Seq<StageTool>, stage: Seq<char>, names: Seq<Seq<char>>) -> bool {
    &&& ts.len() == names.len()
    &&& forall|j: int| 0 <= j < names.len() ==> tool_resolves(#[trigger] ts[j], stage, names[j])
}

/// Resolves one stage's grant into its tools: the wildcard expands to every advertised tool,
/// duplicates go, and each name resolves to a built-in sink or an advertised MCP tool; the first
/// name that does neither fails the stage.
pub fn build_stage_tools(stage: &str, grant: &[String], advertised: &[String]) -> (r: Result<
    Vec<StageTool>,
    String,
>)
    ensures
        match stage_tools_check(views(grant@), views(advertised@)) {
            Some(msg) => r matches Err(e) && e@ == msg,
            None => r matches Ok(ts) && tools_resolve(
                ts@,
                stage@,
                granted_names(views(grant@), views(advertised@)),
            ),
        },
{
    let names = expand_grant(grant, advertised);
    let ghost adv = views(advertised@);
    let ghost ns = views(names@);
    let mut out: Vec<StageTool> = Vec::new();
    let mut i: usize = 0;
    while i < names.len()
        invariant
            i <= names.len(),
            adv == views(advertised@),
            ns == views(names@),
            ns == granted_names(views(grant@), adv),
            out@.len() == i,
            forall|j: int| 0 <= j < i ==> !#[trigger] unresolvable_at(ns, adv)(j),
            forall|j: int| 0 <= j < i ==> tool_resolves(#[trigger] out@[j], stage@, ns[j]),
        decreases names.len() - i,
    {
        assert(ns[i as int] == names@[i as int]@);
        match build_tool(stage, names[i].as_str(), advertised) {
            Ok(t) => out.push(t),
            Err(e) => {
                proof {
                    assert(unresolvable_at(ns, adv)(i as int));
                    lemma_first_where_some(ns.len() as int, unresolvable_at(ns, adv), i as int);
                    assert(e@ == err_unadvertised_tool(ns[i as int]));
                }
                return Err(e);
            },
        }
        i += 1;
    }
    proof {
        lemma_first_where_none(ns.len() as int, unresolvable_at(ns, adv));
    }
    Ok(out)
}

/// How a stage runs.
#[derive(Debug)]
pub enum StageRunner {
    /// An LLM stage: its system instruction, a reasoning budget overriding the provider default
    /// (`None` keeps the default), the payload kinds it accepts, the shape it produces, and an
    /// artifact it must produce before it may finish.
    Llm {
        instruction: String,
        reasoning: Option<ReasoningEffort>,
        accepts: Vec<PayloadKind>,
        output: OutputShape,
        required: Option<ArtifactKey>,
    },
    /// The pure-logic finalizer: the report followed by each chart.
    Finalizer,
    /// The pure-logic renderer: the report payload injected into the boot-loaded template.
    Renderer,
}

/// One planned stage.
#[derive(Debug)]
pub struct StagePlan {
    pub id: SubAgentId,
    pub runner: StageRunner,
    pub tools: Vec<StageTool>,
}

/// A planned pipeline: its id and its stages in order.
#[derive(Debug)]
pub struct PipelinePlan {
    pub id: PipelineId,
    pub stages: Vec<StagePlan>,
}

/// The view of an optional artifact key.
pub open spec fn key_opt(k: Option<ArtifactKey>) -> Option<(Seq<char>, Seq<char>)> {
    match k {
        Some(k) => Some((k.agent_part(), k.name_part())),
        None => None,
    }
}

/// `s` is the LLM stage `id` with exactly these settings.
pub open spec fn llm_stage(
    s: StagePlan,
    id: Seq<char>,
    instruction: Seq<char>,
    reasoning: Option<ReasoningEffort>,
    accepts: Seq<PayloadKind>,
    output: OutputShape,
    required: Option<(Seq<char>, Seq<char>)>,
) -> bool {
    &&& s.id.0@ == id
    &&& s.runner matches StageRunner::Llm { instruction: i, reasoning: re, accepts: a, output: o, required: q }
    &&& i@ == instruction
    &&& re == reasoning
    &&& a@ == accepts
    &&& o == output
    &&& key_opt(q) == required
}

/// A builds-in LLM stage.
fn llm(
    id: &str,
    instruction: String,
    reasoning: Option<ReasoningEffort>,
    accepts: PayloadKind,
    output: OutputShape,
    required: Option<ArtifactKey>,
    tools: Vec<StageTool>,
) -> (r: StagePlan)
    ensures
        llm_stage(r, id@, instruction@, reasoning, seq![accepts], output, key_opt(required)),
        r.tools == tools,
{
    let a = vec![accepts];
    assert(a@ =~= seq![accepts]);
    StagePlan {
        id: SubAgentId(to_owned_string(id)),
        runner: StageRunner::Llm { instruction, reasoning, accepts: a, output, required },
        tools,
    }
}

/// `s` is the pure-logic stage `id` run by `runner`, with no tools.
pub open spec fn logic_stage(s: StagePlan, id: Seq<char>, finalizer: bool) -> bool {
    &&& s.id.0@ == id
    &&& if finalizer {
        s.runner is Finalizer
    } else {
        s.runner is Renderer
    }
    &&& s.tools@.len() == 0
}

/// The optional MCP conventions' view.
pub open spec fn opt_text(o: Option<&str>) -> Option<Seq<char>> {
    match o {
        Some(m) => Some(m@),
        None => None,
    }
}

/// `p` is the four-stage chat pipeline `fetcher → analyst → charter → finalizer`: the fetcher runs
/// on the minimal reasoning budget with its grant-composed instruction and granted tools; the
/// analyst (no tools) and the charter (its granted tools) keep the default budget; every LLM stage
/// produces `Intermediate` and the finalizer closes.
pub open spec fn chat_plan(
    p: PipelinePlan,
    id: PipelineId,
    advertised: Seq<Seq<char>>,
    mcp: Option<Seq<char>>,
    fetcher_text: Seq<char>,
    analyst_text: Seq<char>,
    charter_text: Seq<char>,
    fetcher_grant: Seq<Seq<char>>,
    charter_grant: Seq<Seq<char>>,
) -> bool {
    let st = p.stages@;
    &&& p.id == id
    &&& st.len() == 4
    &&& llm_stage(
        st[0],
        "fetcher"@,
        fetcher_instruction(fetcher_text, fetcher_grant, advertised, mcp),
        Some(ReasoningEffort::Minimal),
        seq![PayloadKind::Initial],
        OutputShape::Intermediate,
        None,
    )
    &&& tools_resolve(st[0].tools@, "fetcher"@, granted_names(fetcher_grant, advertised))
    &&& llm_stage(
        st[1],
        "analyst"@,
        analyst_text,
        None,
        seq![PayloadKind::Intermediate],
        OutputShape::Intermediate,
        None,
    )
    &&& st[1].tools@.len() == 0
    &&& llm_stage(
        st[2],
        "charter"@,
        charter_text,
        None,
        seq![PayloadKind::Intermediate],
        OutputShape::Intermediate,
        None,
    )
    &&& tools_resolve(st[2].tools@, "charter"@, granted_names(charter_grant, advertised))
    &&& logic_stage(st[3], "finalizer"@, true)
}

/// Plans a chat pipeline (`/insight` or `/ss-chat`, told apart by `id`, their instructions and
/// grants); the fetcher's grant is resolved first, then the charter's, and the first failure is
/// returned.
pub fn chat_pipeline_plan(
    id: PipelineId,
    advertised: &[String],
    mcp_instructions: Option<&str>,
    fetcher_text: &str,
    analyst_text: &str,
    charter_text: &str,
    fetcher_grant: &[String],
    charter_grant: &[String],
) -> (r: Result<PipelinePlan, String>)
    ensures
        ({
            let adv = views(advertised@);
            let fc = stage_tools_check(views(fetcher_grant@), adv);
            let cc = stage_tools_check(views(charter_grant@), adv);
            &&& fc matches Some(m) ==> (r matches Err(e) && e@ == m)
            &&& (fc is None && cc is Some) ==> (r matches Err(e) && Some(e@) == cc)
            &&& (fc is None && cc is None) ==> (r matches Ok(p) && chat_plan(
                p,
                id,
                adv,
                opt_text(mcp_instructions),
                fetcher_text@,
                analyst_text@,
                charter_text@,
                views(fetcher_grant@),
                views(charter_grant@),
            ))
        }),
{
    let fetcher_tools = build_stage_tools("fetcher", fetcher_grant, advertised)?;
    let charter_tools = build_stage_tools("charter", charter_grant, advertised)?;
    let instruction = compose_fetcher_instruction(fetcher_text, fetcher_grant, advertised, mcp_instructions);
    let fetcher = llm(
        "fetcher",
        instruction,
        Some(ReasoningEffort::Minimal),
        PayloadKind::Initial,
        OutputShape::Intermediate,
        None,
        fetcher_tools,
    );
    let analyst = llm(
        "analyst",
        to_owned_string(analyst_text),
        None,
        PayloadKind::Intermediate,
        OutputShape::Intermediate,
        None,
        Vec::new(),
    );
    let charter = llm(
        "charter",
        to_owned_string(charter_text),
        None,
        PayloadKind::Intermediate,
        OutputShape::Intermediate,
        None,
        charter_tools,
    );
    let finalizer = StagePlan {
        id: SubAgentId(to_owned_string("finalizer")),
        runner: StageRunner::Finalizer,
        tools: Vec::new(),
    };
    let stages = vec![fetcher, analyst, charter, finalizer];
    Ok(PipelinePlan { id, stages })
}

/// `p` is the four-stage report pipeline `fetcher → analyst → composer → renderer`: the fetcher
/// (minimal budget, grant-composed instruction, granted tools), the analyst (default budget, no
/// tools), the composer (minimal budget, the `emit_report` sink, required to produce
/// `report.data`), and the renderer closing.
pub open spec fn report_plan(
    p: PipelinePlan,
    id: PipelineId,
    advertised: Seq<Seq<char>>,
    mcp: Option<Seq<char>>,
    fetcher_text: Seq<char>,
    analyst_text: Seq<char>,
    composer_text: Seq<char>,
    fetcher_grant: Seq<Seq<char>>,
) -> bool {
    let st = p.stages@;
    &&& p.id == id
    &&& st.len() == 4
    &&& llm_stage(
        st[0],
        "fetcher"@,
        fetcher_instruction(fetcher_text, fetcher_grant, advertised, mcp),
        Some(ReasoningEffort::Minimal),
        seq![PayloadKind::Initial],
        OutputShape::Intermediate,
        None,
    )
    &&& tools_resolve(st[0].tools@, "fetcher"@, granted_names(fetcher_grant, advertised))
    &&& llm_stage(
        st[1],
        "analyst"@,
        analyst_text,
        None,
        seq![PayloadKind::Intermediate],
        OutputShape::Intermediate,
        None,
    )
    &&& st[1].tools@.len() == 0
    &&& llm_stage(
        st[2],
        "composer"@,
        composer_text,
        Some(ReasoningEffort::Minimal),
        seq![PayloadKind::Intermediate],
        OutputShape::Intermediate,
        Some(("report"@, "data"@)),
    )
    &&& tools_resolve(st[2].tools@, "composer"@, seq!["emit_report"@])
    &&& logic_stage(st[3], "renderer"@, false)
}

/// Plans the report pipeline under `id`; only the fetcher's grant can fail.
pub fn report_pipeline_plan(
    id: PipelineId,
    advertised: &[String],
    mcp_instructions: Option<&str>,
    fetcher_text: &str,
    analyst_text: &str,
    composer_text: &str,
    fetcher_grant: &[String],
) -> (r: Result<PipelinePlan, String>)
    ensures
        ({
            let adv = views(advertised@);
            let fc = stage_tools_check(views(fetcher_grant@), adv);
            &&& fc matches Some(m) ==> (r matches Err(e) && e@ == m)
            &&& fc is None ==> (r matches Ok(p) && report_plan(
                p,
                id,
                adv,
                opt_text(mcp_instructions),
                fetcher_text@,
                analyst_text@,
                composer_text@,
                views(fetcher_grant@),
            ))
        }),
{
    let fetcher_tools = build_stage_tools("fetcher", fetcher_grant, advertised)?;
    let composer_grant = vec![to_owned_string("emit_report")];
    proof {
        reveal_strlit("emit_report");
        reveal_strlit("*");
        let g = views(composer_grant@);
        assert(g =~= seq!["emit_report"@]);
        assert(g.drop_last() =~= Seq::<Seq<char>>::empty());
        assert(grant_names(Seq::<Seq<char>>::empty(), views(advertised@)) =~= Seq::<Seq<char>>::empty());
        assert("*"@.len() == 1);
        assert("emit_report"@.len() == 11);
        assert(entry_names("emit_report"@, views(advertised@)) =~= seq!["emit_report"@]);
        assert(grant_names(g, views(advertised@)) =~= seq!["emit_report"@]);
        let n = grant_names(g, views(advertised@));
        assert(n.drop_last() =~= Seq::<Seq<char>>::empty());
        assert(dedup_first(Seq::<Seq<char>>::empty()) =~= Seq::<Seq<char>>::empty());
        assert(granted_names(g, views(advertised@)) =~= seq!["emit_report"@]);
        assert(resolvable("emit_report"@, views(advertised@)));
        assert(!unresolvable_at(seq!["emit_report"@], views(advertised@))(0));
        lemma_first_where_none(1, unresolvable_at(seq!["emit_report"@], views(advertised@)));
    }
    let composer_tools = build_stage_tools("composer", composer_grant.as_slice(), advertised)?;
    let instruction = compose_fetcher_instruction(fetcher_text, fetcher_grant, advertised, mcp_instructions);
    let fetcher = llm(
        "fetcher",
        instruction,
        Some(ReasoningEffort::Minimal),
        PayloadKind::Initial,
        OutputShape::Intermediate,
        None,
        fetcher_tools,
    );
    let analyst = llm(
        "analyst",
        to_owned_string(analyst_text),
        None,
        PayloadKind::Intermediate,
        OutputShape::Intermediate,
        None,
        Vec::new(),
    );
    let composer = llm(
        "composer",
        to_owned_string(composer_text),
        Some(ReasoningEffort::Minimal),
        PayloadKind::Intermediate,
        OutputShape::Intermediate,
        Some(ArtifactKey::report_data()),
        composer_tools,
    );
    let renderer = StagePlan {
        id: SubAgentId(to_owned_string("renderer")),
        runner: StageRunner::Renderer,
        tools: Vec::new(),
    };
    let stages = vec![fetcher, analyst, composer, renderer];
    Ok(PipelinePlan { id, stages })
}

/// `p` is the two-stage greeting pipeline: the fetcher (minimal budget, grant-composed
/// instruction, granted tools) and the terminal analyst (default budget, no tools) whose message
/// is the `Final` greeting.
pub open spec fn greeting_plan(
    p: PipelinePlan,
    advertised: Seq<Seq<char>>,
    mcp: Option<Seq<char>>,
    fetcher_text: Seq<char>,
    analyst_text: Seq<char>,
    fetcher_grant: Seq<Seq<char>>,
) -> bool {
    let st = p.stages@;
    &&& p.id.0@ == "greeting"@
    &&& st.len() == 2
    &&& llm_stage(
        st[0],
        "fetcher"@,
        fetcher_instruction(fetcher_text, fetcher_grant, advertised, mcp),
        Some(ReasoningEffort::Minimal),
        seq![PayloadKind::Initial],
        OutputShape::Intermediate,
        None,
    )
    &&& tools_resolve(st[0].tools@, "fetcher"@, granted_names(fetcher_grant, advertised))
    &&& llm_stage(
        st[1],
        "analyst"@,
        analyst_text,
        None,
        seq![PayloadKind::Intermediate],
        OutputShape::Final,
        None,
    )
    &&& st[1].tools@.len() == 0
}

/// Plans the greeting pipeline; only the fetcher's grant can fail.
pub fn greeting_pipeline_plan(
    advertised: &[String],
    mcp_instructions: Option<&str>,
    fetcher_grant: &[String],
    fetcher_text: &str,
    analyst_text: &str,
) -> (r: Result<PipelinePlan, String>)
    ensures
        ({
            let adv = views(advertised@);
            let fc = stage_tools_check(views(fetcher_grant@), adv);
            &&& fc matches Some(m) ==> (r matches Err(e) && e@ == m)
            &&& fc is None ==> (r matches Ok(p) && greeting_plan(
                p,
                adv,
                opt_text(mcp_instructions),
                fetcher_text@,
                analyst_text@,
                views(fetcher_grant@),
            ))
        }),
{
    let fetcher_tools = build_stage_tools("fetcher", fetcher_grant, advertised)?;
    let instruction = compose_fetcher_instruction(fetcher_text, fetcher_grant, advertised, mcp_instructions);
    let fetcher = llm(
        "fetcher",
        instruction,
        Some(ReasoningEffort::Minimal),
        PayloadKind::Initial,
        OutputShape::Intermediate,
        None,
        fetcher_tools,
    );
    let analyst = llm(
        "analyst",
        to_owned_string(analyst_text),
        None,
        PayloadKind::Intermediate,
        OutputShape::Final,
        None,
        Vec::new(),
    );
    let stages = vec![fetcher, analyst];
    Ok(PipelinePlan { id: greeting_pipeline_id(), stages })
}


/// Every MCP tool of a stage fills its own artifact slot: granting several tools never has one
/// overwrite another's result.
pub proof fn law_stage_tools_fill_distinct_slots(
    ts: Seq<StageTool>,
    stage: Seq<char>,
    grant: Seq<Seq<char>>,
    advertised: Seq<Seq<char>>,
)
    requires
        tools_resolve(ts, stage, granted_names(grant, advertised)),
    ensures
        forall|a: int, b: int|
            #![trigger ts[a], ts[b]]
            0 <= a < b < ts.len() && ts[a] is Mcp && ts[b] is Mcp ==> (ts[a]->slot.agent_part(),
            ts[a]->slot.name_part()) != (ts[b]->slot.agent_part(), ts[b]->slot.name_part()),
{
    let names = granted_names(grant, advertised);
    lemma_dedup_first(grant_names(grant, advertised));
    assert forall|a: int, b: int|
        #![trigger ts[a], ts[b]]
        0 <= a < b < ts.len() && ts[a] is Mcp && ts[b] is Mcp implies (ts[a]->slot.agent_part(),
        ts[a]->slot.name_part()) != (ts[b]->slot.agent_part(), ts[b]->slot.name_part()) by {
        assert(tool_resolves(ts[a], stage, names[a]));
        assert(tool_resolves(ts[b], stage, names[b]));
        assert(names[a] != names[b]);
    }
}

} // verus!
