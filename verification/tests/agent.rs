use std::sync::Mutex;

use datacenter_agent::agent::blueprint::{
    build_stage_tools, chat_pipeline_plan, greeting_pipeline_plan, report_pipeline_plan,
    tool_schema, StageRunner, StageTool,
};
use datacenter_agent::agent::chart::ChartType;
use datacenter_agent::agent::clock::current_time_header;
use datacenter_agent::agent::config::{
    effective_output, resolve_llm, GenerationParams, LlmConfig, OutputShape, PipelineConfig,
    PipelineId, Provider, ReasoningEffort, ResolveError, ResolvedLlm, SecretRef, SubAgentId,
};
use datacenter_agent::agent::engine::{
    check_accepts, intern_accepts, render_material, resolve_pipeline, stage_user_turn, run_finished, stage_failed, stage_produced, stage_started,
    stage_succeeded, unknown_pipeline, HelloWorld,
};
use datacenter_agent::model::{initial_messages, ChatMessage, History};
use datacenter_agent::agent::events::{AgentEvent, EventSink, NullSink, StageOutcome};
use datacenter_agent::agent::llm::{DeltaFrame, StreamAccumulator, StreamedResponse, ToolCallFragment};
use datacenter_agent::agent::payload::{
    find_tool, rejected_reply, steps_exhausted, AgentError, ArtifactKey, PayloadKind, MAX_STEPS,
};
use datacenter_agent::agent::report::{
    is_language_tag, is_year_month, Period, ReportData, ReportInsight, ReportMeta, ReportSummary,
    StationRank,
};
use datacenter_agent::agent::stage::{
    stage_input, stage_output, AgentPayload, InitialPrompt, IntermediateData, TurnInstant,
};
use datacenter_agent::agent::tool_loop::{put_artifact, stage_artifacts, LoopMessage, ToolOutcome, ToolUseLoop};
use datacenter_agent::agent::tools::{all_tool_ids, ToolError, ToolId, ToolRegistry};
use datacenter_agent::agent::wiring::{
    code_tool, compose_fetcher_instruction, expand_grant, validate_grant, validate_ss_chat_grants,
};

#[test]
fn output_derives_from_position_and_ambiguity_requires_an_explicit_value() {
    let fetcher = SubAgentId("fetcher".into());
    let writer = SubAgentId("writer".into());
    let report = PipelineConfig {
        id: PipelineId("report".into()),
        stages: vec![fetcher.clone(), writer.clone()],
    };
    assert_eq!(
        effective_output(&writer, None, std::slice::from_ref(&report)),
        Ok(OutputShape::Final)
    );
    assert_eq!(
        effective_output(&fetcher, None, std::slice::from_ref(&report)),
        Ok(OutputShape::Intermediate)
    );
    let quick = PipelineConfig {
        id: PipelineId("quick_fetch".into()),
        stages: vec![fetcher.clone()],
    };
    assert_eq!(
        effective_output(&fetcher, None, &[report, quick]),
        Err(ResolveError::AmbiguousOutput(fetcher))
    );
}

#[test]
fn explicit_output_overrides_position() {
    let writer = SubAgentId("writer".into());
    let report = PipelineConfig {
        id: PipelineId("report".into()),
        stages: vec![SubAgentId("fetcher".into()), writer.clone()],
    };
    assert_eq!(
        effective_output(&writer, Some(OutputShape::Intermediate), &[report]),
        Ok(OutputShape::Intermediate)
    );
}

#[test]
fn null_sink_drops_every_event() {
    let sink = NullSink;
    sink.emit(AgentEvent::ContentDelta { text: "x".into() });
    sink.emit(AgentEvent::Finished {
        assistant: "y".into(),
    });
}

/// A sink that records every event, so a test can assert the exact emitted sequence.
#[derive(Default)]
struct CollectingSink {
    events: Mutex<Vec<AgentEvent>>,
}

impl CollectingSink {
    fn new() -> Self {
        Self::default()
    }

    fn events(&self) -> Vec<AgentEvent> {
        self.events.lock().unwrap().clone()
    }
}

impl EventSink for CollectingSink {
    fn emit(&self, event: AgentEvent) {
        self.events.lock().unwrap().push(event);
    }
}

#[test]
fn collecting_sink_records_in_emission_order() {
    let sink = CollectingSink::new();
    sink.emit(AgentEvent::ToolStarted {
        name: "bill_revenue".into(),
    });
    sink.emit(AgentEvent::ContentDelta { text: "hi".into() });
    assert_eq!(
        sink.events(),
        vec![
            AgentEvent::ToolStarted {
                name: "bill_revenue".into()
            },
            AgentEvent::ContentDelta { text: "hi".into() },
        ]
    );
}

#[test]
fn artifact_key_round_trips_through_its_dotted_string() {
    assert_eq!(ArtifactKey::fetcher_records().to_dotted(), "fetcher.records");
    assert_eq!(
        "fetcher.records".parse::<ArtifactKey>().unwrap(),
        ArtifactKey::fetcher_records()
    );
    assert_eq!(
        "custom.slot".parse::<ArtifactKey>().unwrap(),
        ArtifactKey::new("custom", "slot")
    );
    assert!("nodot".parse::<ArtifactKey>().is_err());
}

#[test]
fn is_language_tag_accepts_hyphenated_subtags_only() {
    for ok in ["zh-TW", "en", "zh-Hant-TW", "en-US-u-nu-latn", "Taiwan"] {
        assert!(is_language_tag(ok), "{ok}");
    }
    for bad in [
        "zh_TW",
        "",
        "z",
        "zh-",
        "zh--TW",
        "zh-TW!",
        "123-TW",
        "toolongprimary",
    ] {
        assert!(!is_language_tag(bad), "{bad}");
    }
}

#[test]
fn is_year_month_accepts_only_zero_padded_months() {
    for ok in ["2026-01", "2026-12", "1999-06"] {
        assert!(is_year_month(ok), "{ok}");
    }
    for bad in [
        "2026-5",
        "2026-13",
        "2026-00",
        "2026/05",
        "2026-05-01",
        "2026年5月",
        "",
    ] {
        assert!(!is_year_month(bad), "{bad}");
    }
}

#[test]
fn insight_defaults_to_empty_and_renders_nothing() {
    let insight = ReportInsight::default();
    assert!(insight.headline.is_empty());
    assert!(insight.paragraphs.is_empty());
}

#[test]
fn tool_id_round_trips_through_its_canonical_string() {
    for id in all_tool_ids() {
        assert_eq!(id.as_str().parse::<ToolId>().unwrap(), id);
    }
    assert!("not_a_tool".parse::<ToolId>().is_err());
}

#[test]
fn expand_grant_expands_the_wildcard_and_dedups() {
    let advertised = vec!["bill_revenue".to_string(), "member_analysis".to_string()];
    assert_eq!(
        expand_grant(&["*".to_string()], &advertised),
        vec!["bill_revenue".to_string(), "member_analysis".to_string()]
    );
    assert_eq!(
        expand_grant(&["emit_chart".to_string()], &advertised),
        vec!["emit_chart".to_string()]
    );
    assert_eq!(
        expand_grant(&["*".to_string(), "bill_revenue".to_string()], &advertised),
        vec!["bill_revenue".to_string(), "member_analysis".to_string()]
    );
}

#[test]
fn tool_schema_fails_fast_when_the_tool_is_absent() {
    let err = tool_schema(&[], "bill_revenue").expect_err("missing tool must error");
    assert!(err.to_string().contains("bill_revenue"));
}

#[test]
fn tool_schema_finds_the_first_advertised_match() {
    let advertised = vec!["a".to_string(), "bill_revenue".to_string(), "bill_revenue".to_string()];
    assert_eq!(tool_schema(&advertised, "bill_revenue"), Ok(1));
}

#[test]
fn code_tool_resolves_only_the_built_in_sinks() {
    assert!(code_tool("emit_chart"));
    assert!(code_tool("emit_report"));
    assert!(!code_tool("bill_revenue"));
    assert!(!code_tool("nope"));
}

#[test]
fn validate_ss_chat_grants_names_the_pipeline_and_the_missing_ss_tool() {
    let err = validate_ss_chat_grants(&[], &["ss_sunshine_hours".to_string()], &[])
        .expect_err("an unadvertised ss_* tool must fail validation");
    let msg = err.to_string();
    assert!(msg.contains("ss-chat"), "message should name the pipeline: {msg}");
    assert!(msg.contains("fetcher"), "message should name the stage: {msg}");
    assert!(msg.contains("ss_sunshine_hours"), "message should name the tool: {msg}");
    let discovered = vec!["ss_sunshine_hours".to_string()];
    assert!(validate_ss_chat_grants(
        &discovered,
        &["ss_sunshine_hours".to_string()],
        &["emit_chart".to_string()],
    )
    .is_ok());

    let err = validate_ss_chat_grants(&[], &["*".to_string()], &[])
        .expect_err("the wildcard must fail SS grant validation");
    assert!(err.to_string().contains('*'), "got: {err}");

    let err = validate_ss_chat_grants(&[], &[], &["emit_chart".to_string()])
        .expect_err("an empty SS fetcher grant must fail validation");
    assert!(err.to_string().contains("empty"), "got: {err}");
}

#[test]
fn fetcher_instruction_lists_only_the_effective_grant() {
    let discovered = vec!["bill_revenue".to_string(), "member_analysis".to_string()];

    let narrowed = compose_fetcher_instruction(
        "base instruction",
        &["bill_revenue".to_string()],
        &discovered,
        None,
    );
    assert!(narrowed.contains("`bill_revenue`"));
    assert!(!narrowed.contains("`member_analysis`"));

    let expanded =
        compose_fetcher_instruction("base instruction", &["*".to_string()], &discovered, None);
    assert!(expanded.contains("`bill_revenue`"));
    assert!(expanded.contains("`member_analysis`"));
}

#[test]
fn fetcher_instruction_text_is_exact() {
    let discovered = vec!["a".to_string(), "b".to_string()];
    assert_eq!(
        compose_fetcher_instruction("base", &["*".to_string()], &discovered, Some("be nice")),
        "base\n\n## Per-turn tool grant\nFor this turn you may call only these granted data tools: `a`, `b`. For a report request, call every listed tool that is relevant to the requested date range; never call a tool that is not listed.\n\n# MCP server conventions (apply to all tools)\nbe nice"
    );
    assert_eq!(
        compose_fetcher_instruction("base", &[], &discovered, Some("   ")),
        "base\n\n## Per-turn tool grant\nNo data tools are granted for this turn. Do not make a tool call."
    );
}

#[test]
fn validate_grant_accepts_wildcard_and_code_tools_but_rejects_unknown_mcp_names() {
    assert!(validate_grant("insight", "fetcher", &["*".to_string()], &[]).is_ok());
    assert!(validate_grant("insight", "charter", &["emit_chart".to_string()], &[]).is_ok());
    let err = validate_grant("insight", "fetcher", &["ghost_tool".to_string()], &[])
        .expect_err("unknown MCP tool must fail validation");
    let msg = err.to_string();
    assert!(msg.contains("fetcher"));
    assert!(msg.contains("ghost_tool"));
}

#[test]
fn pipeline_referencing_an_unknown_agent_fails_fast() {
    let agents: Vec<SubAgentId> = Vec::new();
    let cfg = PipelineConfig {
        id: PipelineId("p".into()),
        stages: vec![SubAgentId("ghost".into())],
    };
    assert!(matches!(
        resolve_pipeline(&cfg, &agents),
        Err(ResolveError::UnknownAgentRef { .. })
    ));
}

#[test]
fn pipeline_resolves_each_stage_to_its_agent() {
    let agents = vec![
        SubAgentId("analyst".into()),
        SubAgentId("fetcher".into()),
    ];
    let cfg = PipelineConfig {
        id: PipelineId("p".into()),
        stages: vec![SubAgentId("fetcher".into()), SubAgentId("analyst".into())],
    };
    assert_eq!(resolve_pipeline(&cfg, &agents), Ok(vec![1, 0]));
}

#[test]
fn hello_world_agent_answers_only_initial_prompts() {
    let agent = HelloWorld::new(SubAgentId("hello".into()));
    assert_eq!(agent.answer(PayloadKind::Initial).expect("initial is accepted"), "hello world.");
    assert!(matches!(
        agent.answer(PayloadKind::Final),
        Err(AgentError::Mismatch { .. })
    ));
    assert_eq!(agent.accepts(), vec![PayloadKind::Initial]);
}

#[test]
fn accept_sets_are_interned_in_canonical_order() {
    assert_eq!(
        intern_accepts(&[PayloadKind::Final, PayloadKind::Initial, PayloadKind::Final]),
        vec![PayloadKind::Initial, PayloadKind::Final]
    );
    assert!(intern_accepts(&[]).is_empty());
}

#[test]
fn stage_produced_reports_only_new_keys_in_key_order() {
    let before = vec![ArtifactKey::new("fetcher", "bill_revenue")];
    let after = vec![
        ArtifactKey::new("fetcher", "bill_revenue"),
        ArtifactKey::new("fetcher", "member_analysis"),
        ArtifactKey::new("analyst", "message"),
    ];
    match stage_produced(&SubAgentId("fetcher".into()), &before, &after) {
        Some(AgentEvent::StageProduced { agent, keys }) => {
            assert_eq!(agent, SubAgentId("fetcher".into()));
            assert_eq!(
                keys,
                vec![
                    ArtifactKey::new("analyst", "message"),
                    ArtifactKey::new("fetcher", "member_analysis"),
                ]
            );
        }
        other => panic!("expected StageProduced, got {other:?}"),
    }
    assert!(stage_produced(&SubAgentId("fetcher".into()), &after, &after).is_none());
}

fn content_frame(text: &str) -> DeltaFrame {
    DeltaFrame {
        content: Some(text.to_string()),
        tool_calls: vec![],
    }
}

fn tool_frame(index: u32, id: Option<&str>, name: Option<&str>, args: Option<&str>) -> DeltaFrame {
    DeltaFrame {
        content: None,
        tool_calls: vec![ToolCallFragment {
            index,
            id: id.map(str::to_string),
            name: name.map(str::to_string),
            arguments: args.map(str::to_string),
        }],
    }
}

#[test]
fn accumulator_streams_content_deltas_then_returns_the_joined_message() {
    let mut acc = StreamAccumulator::new();
    let mut events = acc.push(content_frame("Hel"));
    events.extend(acc.push(content_frame("lo")));
    let (response, tail) = acc.finish();
    events.extend(tail);

    assert!(matches!(response, StreamedResponse::Message(m) if m == "Hello"));
    assert_eq!(
        events,
        vec![
            AgentEvent::ContentDelta { text: "Hel".into() },
            AgentEvent::ContentDelta { text: "lo".into() },
        ]
    );
}

#[test]
fn accumulator_assembles_a_tool_call_from_argument_fragments() {
    let mut acc = StreamAccumulator::new();
    let mut events = acc.push(tool_frame(0, Some("call_1"), Some("bill_revenue"), Some("{\"year\":")));
    events.extend(acc.push(tool_frame(0, None, None, Some("2026}"))));
    let (response, tail) = acc.finish();
    events.extend(tail);

    match response {
        StreamedResponse::ToolCalls(calls) => {
            assert_eq!(calls.len(), 1);
            assert_eq!(calls[0].id, "call_1");
            assert_eq!(calls[0].name, "bill_revenue");
            let parsed: serde_json::Value =
                serde_json::from_str(&calls[0].arguments).expect("arguments are JSON");
            let expected: serde_json::Value =
                serde_json::from_str("{ \"year\": 2026 }").expect("expected JSON");
            assert_eq!(parsed, expected);
        }
        other => panic!("expected ToolCalls, got {other:?}"),
    }
    assert_eq!(
        events,
        vec![
            AgentEvent::ToolArgsDelta { id: "call_1".into(), fragment: "{\"year\":".into() },
            AgentEvent::ToolArgsDelta { id: "call_1".into(), fragment: "2026}".into() },
            AgentEvent::ToolCallProposed { id: "call_1".into(), name: "bill_revenue".into() },
        ]
    );
}

fn report_sample() -> ReportData {
    ReportData {
        report: ReportMeta {
            title: "充電網路營運報表".into(),
            organization: "EOMC 充電網路".into(),
            brand: "Starcharger 星舟".into(),
            period_label: "2026年5月-6月".into(),
            date_from: "2026-05-01".into(),
            date_to: "2026-06-30".into(),
            as_of: "2026-06-30".into(),
            locale: "zh-TW".into(),
            currency: "TWD".into(),
            partial_period_note: "2026-06 為部分月份數據。".into(),
        },
        summary: ReportSummary {
            latest_completed_period: "2026-05".into(),
            top_station_period_label: "2026年 Q2 累計".into(),
        },
        insight: ReportInsight {
            headline: "5 月營收創高，成長動能穩健。".into(),
            paragraphs: vec!["5 月營收 NT$5.8M，月增 13.7%。".into()],
        },
        periods: vec![
            Period {
                period: "2026-05".into(),
                sessions: 35_861,
                new_members: 2_888,
                total_members: 42_758,
                active_members: 7_247,
                stations: 248,
                chargers: 796,
                partial: false,
            },
            Period {
                period: "2026-06".into(),
                sessions: 29_434,
                new_members: 2_834,
                total_members: 45_592,
                active_members: 6_758,
                stations: 248,
                chargers: 812,
                partial: true,
            },
        ],
        station_ranking: vec![StationRank {
            rank: 1,
            name: "內湖堤頂專用站".into(),
        }],
    }
}

#[test]
fn validate_accepts_the_template_wire_sample() {
    assert_eq!(report_sample().validate(), Ok(()));
}

#[test]
fn validate_names_the_field_for_each_unrenderable_invariant() {
    let mut d = report_sample();
    d.summary.latest_completed_period = "2026-5".into();
    let e = d.validate().unwrap_err();
    assert!(e.contains("latestCompletedPeriod") && e.contains("2026-05"), "{e}");

    let mut d = report_sample();
    d.summary.latest_completed_period = "2026-06".into();
    assert!(d.validate().unwrap_err().contains("partial"));

    let mut d = report_sample();
    d.periods.clear();
    assert!(d.validate().unwrap_err().starts_with("periods must contain"));
    let mut d = report_sample();
    d.station_ranking.clear();
    assert!(d.validate().unwrap_err().starts_with("stationRanking must contain"));

    let mut d = report_sample();
    d.periods[0].period = "2026/05".into();
    assert!(d.validate().unwrap_err().contains("YYYY-MM"));
    let mut d = report_sample();
    d.periods[1].period = "2026-6".into();
    assert!(d.validate().unwrap_err().contains("YYYY-MM"));

    let mut d = report_sample();
    d.periods[1].partial = false;
    d.summary.latest_completed_period = "2026-05".into();
    let e = d.validate().unwrap_err();
    assert!(e.contains("not the most recent") && e.contains("2026-06"), "{e}");

    let mut d = report_sample();
    d.report.locale = "zh_TW".into();
    assert!(d.validate().unwrap_err().contains("report.locale"));
    let mut d = report_sample();
    d.periods.swap(0, 1);
    assert!(d.validate().unwrap_err().contains("oldest first"));
    let mut d = report_sample();
    d.periods[1].period = "2026-05".into();
    d.periods[1].partial = false;
    assert!(d.validate().unwrap_err().contains("oldest first"));

    let mut d = report_sample();
    d.periods[0].partial = true;
    d.periods[1].partial = false;
    d.summary.latest_completed_period = "2026-06".into();
    assert!(d
        .validate()
        .unwrap_err()
        .contains("only the last month may be partial"));

    let mut d = report_sample();
    d.station_ranking[0].rank = 3;
    assert!(d.validate().unwrap_err().contains("rank"));
}

#[test]
fn validate_allows_a_window_with_no_partial_month() {
    let mut d = report_sample();
    d.periods[1].partial = false;
    d.summary.latest_completed_period = "2026-06".into();
    assert_eq!(d.validate(), Ok(()));
}

fn names_of(tools: &[StageTool]) -> Vec<String> {
    tools
        .iter()
        .map(|t| match t {
            StageTool::Code(n) => format!("code:{n}"),
            StageTool::Mcp { name, slot } => format!("mcp:{name}@{}", slot.to_dotted()),
        })
        .collect()
}

#[test]
fn stage_tools_expand_the_grant_into_code_and_mcp_tools() {
    let advertised = vec!["bill_revenue".to_string(), "member_analysis".to_string()];
    let tools = build_stage_tools(
        "fetcher",
        &["*".to_string(), "emit_chart".to_string(), "bill_revenue".to_string()],
        &advertised,
    )
    .expect("every name resolves");
    assert_eq!(
        names_of(&tools),
        [
            "mcp:bill_revenue@fetcher.bill_revenue",
            "mcp:member_analysis@fetcher.member_analysis",
            "code:emit_chart",
        ]
    );
    let err = build_stage_tools("fetcher", &["ghost".to_string()], &advertised)
        .expect_err("an unadvertised name fails");
    assert_eq!(
        err,
        "a grant names MCP tool `ghost`, which the server did not advertise"
    );
}

#[test]
fn chat_plan_runs_fetcher_analyst_charter_finalizer() {
    let advertised = vec!["bill_revenue".to_string()];
    let plan = chat_pipeline_plan(
        PipelineId("agent".into()),
        &advertised,
        None,
        "fetch",
        "analyse",
        "chart",
        &["*".to_string()],
        &["emit_chart".to_string()],
    )
    .expect("grants resolve");
    assert_eq!(plan.id, PipelineId("agent".into()));
    let ids: Vec<&str> = plan.stages.iter().map(|s| s.id.0.as_str()).collect();
    assert_eq!(ids, ["fetcher", "analyst", "charter", "finalizer"]);
    match &plan.stages[0].runner {
        StageRunner::Llm { reasoning, accepts, output, .. } => {
            assert_eq!(*reasoning, Some(ReasoningEffort::Minimal));
            assert_eq!(*accepts, vec![PayloadKind::Initial]);
            assert_eq!(*output, OutputShape::Intermediate);
        }
        _ => panic!("fetcher is an LLM stage"),
    }
    assert_eq!(names_of(&plan.stages[2].tools), ["code:emit_chart"]);
    assert!(matches!(plan.stages[3].runner, StageRunner::Finalizer));

    let err = chat_pipeline_plan(
        PipelineId("agent".into()),
        &advertised,
        None,
        "fetch",
        "analyse",
        "chart",
        &["*".to_string()],
        &["nope".to_string()],
    )
    .err()
    .expect("the charter's grant fails");
    assert!(err.contains("nope"));
}

#[test]
fn report_plan_requires_the_composer_to_produce_report_data() {
    let plan = report_pipeline_plan(
        PipelineId("report".into()),
        &["bill_revenue".to_string()],
        None,
        "fetch",
        "analyse",
        "compose",
        &["bill_revenue".to_string()],
    )
    .expect("grant resolves");
    let ids: Vec<&str> = plan.stages.iter().map(|s| s.id.0.as_str()).collect();
    assert_eq!(ids, ["fetcher", "analyst", "composer", "renderer"]);
    match &plan.stages[2].runner {
        StageRunner::Llm { reasoning, required, .. } => {
            assert_eq!(*reasoning, Some(ReasoningEffort::Minimal));
            assert_eq!(required.as_ref().map(|k| k.to_dotted()), Some("report.data".to_string()));
        }
        _ => panic!("composer is an LLM stage"),
    }
    assert_eq!(names_of(&plan.stages[2].tools), ["code:emit_report"]);
    assert!(matches!(plan.stages[3].runner, StageRunner::Renderer));
}

#[test]
fn greeting_plan_ends_on_the_analysts_final_answer() {
    let plan = greeting_pipeline_plan(&[], None, &[], "fetch", "greet").expect("empty grant");
    assert_eq!(plan.id, PipelineId("greeting".into()));
    assert_eq!(plan.stages.len(), 2);
    match &plan.stages[1].runner {
        StageRunner::Llm { output, instruction, .. } => {
            assert_eq!(*output, OutputShape::Final);
            assert_eq!(instruction, "greet");
        }
        _ => panic!("analyst is an LLM stage"),
    }
    assert!(plan.stages[0].tools.is_empty());
}

fn default_llm() -> ResolvedLlm {
    ResolvedLlm {
        provider: Provider::OpenRouter,
        base_url: "https://openrouter.ai/api/v1".into(),
        model: "google/gemini-flash".into(),
        temperature_bits: 0.7f32.to_bits(),
        top_p_bits: 0.9f32.to_bits(),
        max_tokens: 1024,
        api_key: Some("default-key".into()),
        reasoning_effort: None,
        app_url: None,
        app_title: None,
    }
}

fn env(pairs: &[(&str, &str)]) -> Vec<(String, String)> {
    pairs
        .iter()
        .map(|(k, v)| (k.to_string(), v.to_string()))
        .collect()
}

#[test]
fn merge_overrides_only_model_and_inherits_the_rest() {
    let over = LlmConfig {
        model: Some("mistral/mistral-large".into()),
        ..Default::default()
    };
    let e = env(&[("OPENROUTER_API_KEY", "sk-xyz")]);
    let r = resolve_llm(&SubAgentId("writer".into()), &default_llm(), Some(&over), &e).unwrap();

    assert_eq!(r.model, "mistral/mistral-large");
    assert_eq!(r.provider, Provider::OpenRouter);
    assert_eq!(f32::from_bits(r.temperature_bits), 0.7);
    assert_eq!(r.api_key.as_deref(), Some("sk-xyz"));
}

#[test]
fn omitting_llm_entirely_yields_the_default() {
    let e = env(&[("OPENROUTER_API_KEY", "sk-xyz")]);
    let r = resolve_llm(&SubAgentId("fetcher".into()), &default_llm(), None, &e).unwrap();
    assert_eq!(r.model, "google/gemini-flash");
    assert_eq!(f32::from_bits(r.temperature_bits), 0.7);
}

#[test]
fn atomic_provider_override_switches_base_url_and_auth() {
    let over = LlmConfig {
        provider: Some(Provider::Ollama { endpoint: None }),
        ..Default::default()
    };
    let r = resolve_llm(&SubAgentId("local".into()), &default_llm(), Some(&over), &env(&[]))
        .unwrap();
    assert_eq!(r.base_url, "http://localhost:11434/v1");
    assert_eq!(r.api_key, None);
    assert_eq!(r.model, "google/gemini-flash");
}

#[test]
fn a_set_ollama_endpoint_is_the_base_url() {
    let over = LlmConfig {
        provider: Some(Provider::Ollama { endpoint: Some("http://gpu-box:11434/v1".into()) }),
        ..Default::default()
    };
    let r = resolve_llm(&SubAgentId("local".into()), &default_llm(), Some(&over), &env(&[]))
        .unwrap();
    assert_eq!(r.base_url, "http://gpu-box:11434/v1");
    assert_eq!(r.api_key, None);
    assert_eq!(Provider::Ollama { endpoint: Some("x".into()) }.default_base_url(), None);
    assert_eq!(
        Provider::Ollama { endpoint: None }.default_base_url(),
        Some("http://localhost:11434/v1")
    );
}

#[test]
fn missing_secret_fails_fast() {
    let err = resolve_llm(&SubAgentId("a".into()), &default_llm(), None, &env(&[])).unwrap_err();
    assert_eq!(err, ResolveError::MissingSecret("OPENROUTER_API_KEY".into()));
}

#[test]
fn custom_provider_uses_its_endpoint_and_key_and_merges_params() {
    let over = LlmConfig {
        provider: Some(Provider::Custom {
            name: "corp".into(),
            endpoint: "https://llm.corp/v1".into(),
            api_key: Some(SecretRef("CORP_KEY".into())),
        }),
        model: None,
        params: GenerationParams {
            temperature_bits: Some(0.2f32.to_bits()),
            top_p_bits: None,
            max_tokens: Some(64),
        },
    };
    let r = resolve_llm(
        &SubAgentId("x".into()),
        &default_llm(),
        Some(&over),
        &env(&[("CORP_KEY", "k1"), ("CORP_KEY", "k2")]),
    )
    .unwrap();
    assert_eq!(r.base_url, "https://llm.corp/v1");
    assert_eq!(r.api_key.as_deref(), Some("k1"));
    assert_eq!(f32::from_bits(r.temperature_bits), 0.2);
    assert_eq!(f32::from_bits(r.top_p_bits), 0.9);
    assert_eq!(r.max_tokens, 64);
    let low = r.with_reasoning_effort(ReasoningEffort::Minimal);
    assert_eq!(low.reasoning_effort, Some(ReasoningEffort::Minimal));
    assert_eq!(low.model, r.model);
}

#[test]
fn header_renders_the_current_time_block_verbatim() {
    let at = chrono::DateTime::parse_from_rfc3339("2026-07-11T09:30:00+08:00").expect("valid rfc3339");
    let header = current_time_header(at.timestamp_millis(), at.offset().local_minus_utc())
        .expect("representable instant");
    assert_eq!(header, "# Current Time\n2026-07-11 09:30:00 +08:00\n\n");
}

#[test]
fn header_is_none_for_an_impossible_offset() {
    assert!(current_time_header(0, 100_000).is_none());
}

#[test]
fn chart_types_use_their_lowercase_wire_names() {
    for t in [ChartType::Bar, ChartType::Line, ChartType::Pie] {
        assert_eq!(ChartType::from_wire(t.wire_name()), Some(t));
    }
    assert_eq!(ChartType::Line.wire_name(), "line");
    assert_eq!(ChartType::from_wire("donut"), None);
    assert_eq!(ChartType::from_wire("Bar"), None);
}

#[test]
fn registry_completeness_and_unknown_are_fail_fast() {
    let mut reg: ToolRegistry<&str> = ToolRegistry::new();
    reg.register(ToolId::EmitChart, "emit_chart sink").unwrap();

    assert_eq!(
        reg.assert_complete(&all_tool_ids()),
        Err(ToolError::Unbacked(ToolId::BillRevenue))
    );
    assert_eq!(
        reg.resolve(&[ToolId::Calculate]).err(),
        Some(ToolError::Unknown(ToolId::Calculate))
    );
    assert_eq!(reg.resolve(&[ToolId::EmitChart]).unwrap().len(), 1);
    assert_eq!(
        reg.register(ToolId::EmitChart, "second sink").err(),
        Some(ToolError::Duplicate(ToolId::EmitChart))
    );
    assert_eq!(reg.resolve(&[ToolId::EmitChart]).unwrap(), vec![&"emit_chart sink"]);
}

#[test]
fn a_complete_registry_resolves_grants_in_order() {
    let mut reg: ToolRegistry<u32> = ToolRegistry::new();
    reg.register(ToolId::BillRevenue, 1).unwrap();
    reg.register(ToolId::EmitChart, 2).unwrap();
    reg.register(ToolId::Calculate, 3).unwrap();
    assert_eq!(reg.assert_complete(&all_tool_ids()), Ok(()));
    assert_eq!(
        reg.resolve(&[ToolId::Calculate, ToolId::BillRevenue]).unwrap(),
        vec![&3, &1]
    );
}

#[test]
fn stage_events_frame_success_and_failure() {
    let agent = SubAgentId("fetcher".into());
    assert_eq!(
        stage_started(&agent, PayloadKind::Initial),
        AgentEvent::StageStarted {
            agent: agent.clone(),
            input: PayloadKind::Initial
        }
    );
    let failed = stage_failed(&agent, &AgentError::Capability("boom".into()));
    assert_eq!(
        failed,
        vec![
            AgentEvent::StageFinished {
                agent: agent.clone(),
                outcome: StageOutcome::Failure
            },
            AgentEvent::Error {
                message: "capability error: boom".into()
            },
        ]
    );
    let quiet = stage_succeeded(&agent, &[], &[]);
    assert_eq!(
        quiet,
        vec![AgentEvent::StageFinished {
            agent: agent.clone(),
            outcome: StageOutcome::Success
        }]
    );
    let produced = stage_succeeded(&agent, &[], &[ArtifactKey::new("fetcher", "bill_revenue")]);
    assert_eq!(produced.len(), 2);
    assert!(matches!(produced[0], AgentEvent::StageProduced { .. }));
    assert_eq!(
        run_finished(Some("done")),
        Some(AgentEvent::Finished {
            assistant: "done".into()
        })
    );
    assert_eq!(run_finished(None), None);
    assert!(matches!(
        unknown_pipeline(&PipelineId("nope".into())),
        AgentError::Capability(ref m) if m == "unknown pipeline: nope"
    ));
}

#[test]
fn calling_a_tool_outside_the_set_is_rejected_at_dispatch() {
    let names = vec!["bill_revenue".to_string(), "emit_chart".to_string()];
    assert!(matches!(find_tool(&names, "emit_chart"), Ok(1)));
    assert!(matches!(
        find_tool(&names, "shell"),
        Err(AgentError::UnknownTool(ref n)) if n == "shell"
    ));
    assert_eq!(rejected_reply("year must be a number"), "REJECTED: year must be a number");
    assert_eq!(MAX_STEPS, 8);
    assert!(matches!(
        steps_exhausted(),
        AgentError::Capability(ref m) if m == "tool-use loop exceeded max steps"
    ));
}

#[test]
fn conversation_seed_replays_history_between_system_and_prompt() {
    let history = vec![History {
        user_prompt: "q1".into(),
        model_response: "a1".into(),
    }];
    assert_eq!(
        initial_messages("sys", &history, "q2"),
        vec![
            ChatMessage::System("sys".into()),
            ChatMessage::User("q1".into()),
            ChatMessage::Assistant("a1".into()),
            ChatMessage::User("q2".into()),
        ]
    );
}

/// One scripted model turn.
enum ScriptedTurn {
    Message(&'static str),
    Calls(Vec<(&'static str, &'static str)>),
}

/// Drives the tool-use loop over scripted model turns with a single `echo` tool that produces
/// `echoed` into `fetcher.records`, as an agent's loop does with real model and tool calls.
fn drive_echo_loop(
    turns: Vec<ScriptedTurn>,
) -> Result<(String, Vec<(ArtifactKey, String)>), AgentError> {
    let names = vec!["echo".to_string()];
    let mut state: ToolUseLoop<String> = ToolUseLoop::new("sys".into(), "go".into());
    let mut script = turns.into_iter();
    loop {
        state.begin_turn()?;
        match script.next().expect("the script has a turn for every model call") {
            ScriptedTurn::Message(text) => return Ok(state.finish(text.to_string())),
            ScriptedTurn::Calls(calls) => {
                state.on_calls(
                    calls.iter().map(|(id, name)| (id.to_string(), name.to_string())).collect(),
                );
                for (id, name) in calls {
                    find_tool(&names, name)?;
                    state.record(
                        ArtifactKey::fetcher_records(),
                        id.to_string(),
                        ToolOutcome::Produced("echoed".to_string()),
                        "echoed".to_string(),
                    );
                }
            }
        }
    }
}

#[test]
fn loop_dispatches_a_tool_then_returns_the_final_message() {
    let (text, produced) = drive_echo_loop(vec![
        ScriptedTurn::Calls(vec![("c1", "echo")]),
        ScriptedTurn::Message("done"),
    ])
    .unwrap();
    assert_eq!(text, "done");
    assert_eq!(produced.len(), 1);
    assert_eq!(produced[0].0, ArtifactKey::fetcher_records());
    assert_eq!(produced[0].1, "echoed");
}

#[test]
fn tool_loop_refuses_a_tool_outside_the_set() {
    let err = drive_echo_loop(vec![ScriptedTurn::Calls(vec![("c1", "not_granted")])]).unwrap_err();
    assert!(matches!(err, AgentError::UnknownTool(name) if name == "not_granted"));
}

#[test]
fn tool_loop_fails_after_max_steps_model_turns() {
    let turns = (0..MAX_STEPS + 1).map(|_| ScriptedTurn::Calls(vec![("c", "echo")])).collect();
    let err = drive_echo_loop(turns).unwrap_err();
    assert!(matches!(err, AgentError::Capability(m) if m == "tool-use loop exceeded max steps"));
    let mut turns: Vec<ScriptedTurn> =
        (0..MAX_STEPS - 1).map(|_| ScriptedTurn::Calls(vec![("c", "echo")])).collect();
    turns.push(ScriptedTurn::Message("last"));
    assert_eq!(drive_echo_loop(turns).unwrap().0, "last");
}

#[test]
fn tool_loop_rejection_is_fed_back_and_records_nothing() {
    let mut state: ToolUseLoop<u32> = ToolUseLoop::new("sys".into(), "go".into());
    state.begin_turn().unwrap();
    state.on_calls(vec![("c1".into(), "emit_chart".into())]);
    state.record(
        ArtifactKey::charts_spec(),
        "c1".into(),
        ToolOutcome::Rejected { reason: "bad spec".into() },
        String::new(),
    );
    match state.messages().last() {
        Some(LoopMessage::Tool { tool_call_id, content }) => {
            assert_eq!(tool_call_id, "c1");
            assert_eq!(content, "REJECTED: bad spec");
        }
        _ => panic!("the last message is the tool reply"),
    }
    assert_eq!(state.messages().len(), 4);
    assert!(matches!(&state.messages()[0], LoopMessage::System(s) if s == "sys"));
    assert!(matches!(&state.messages()[1], LoopMessage::User(s) if s == "go"));
    let (_, produced) = state.finish("ok".into());
    assert!(produced.is_empty());
}

#[test]
fn tool_loop_keeps_the_latest_value_per_slot() {
    let mut state: ToolUseLoop<u32> = ToolUseLoop::new("sys".into(), "go".into());
    state.begin_turn().unwrap();
    state.record(ArtifactKey::fetcher_records(), "a".into(), ToolOutcome::Produced(1), "1".into());
    state.record(ArtifactKey::charts_spec(), "b".into(), ToolOutcome::Produced(2), "2".into());
    state.record(ArtifactKey::fetcher_records(), "c".into(), ToolOutcome::Produced(3), "3".into());
    let (_, produced) = state.finish("ok".into());
    assert_eq!(
        produced,
        vec![(ArtifactKey::fetcher_records(), 3), (ArtifactKey::charts_spec(), 2)]
    );
}

#[test]
fn material_lists_carried_artifacts_in_key_order() {
    let entries = vec![
        (ArtifactKey::charts_spec(), "{\"charts\":[]}".to_string()),
        (ArtifactKey::message("analyst"), "report".to_string()),
        (ArtifactKey::fetcher_records(), "rows".to_string()),
    ];
    let material = render_material(&entries);
    assert_eq!(
        material,
        "[analyst.message] report\n[charts.spec] {\"charts\":[]}\n[fetcher.records] rows\n"
    );
    let mut reordered = entries.clone();
    reordered.reverse();
    assert_eq!(render_material(&reordered), material);
    assert_eq!(render_material(&Vec::new()), "");
}

#[test]
fn stage_user_turn_appends_material_only_when_present() {
    assert_eq!(stage_user_turn("how much?", ""), "how much?");
    assert_eq!(
        stage_user_turn("how much?", "[fetcher.records] rows\n"),
        "how much?\n\nMaterial:\n[fetcher.records] rows\n"
    );
}

#[test]
fn stage_output_keeps_carried_artifacts_and_adds_its_own() {
    let incoming = vec![
        (ArtifactKey::fetcher_records(), "old rows".to_string()),
        (ArtifactKey::fetcher_schema(), "schema".to_string()),
    ];
    let produced = vec![
        (ArtifactKey::fetcher_records(), "new rows".to_string()),
        (ArtifactKey::charts_spec(), "charts".to_string()),
    ];
    let out = stage_artifacts(incoming, produced, "analyst", Some("report".to_string()));
    assert_eq!(
        out,
        vec![
            (ArtifactKey::fetcher_records(), "new rows".to_string()),
            (ArtifactKey::fetcher_schema(), "schema".to_string()),
            (ArtifactKey::charts_spec(), "charts".to_string()),
            (ArtifactKey::message("analyst"), "report".to_string()),
        ]
    );
    let quiet = stage_artifacts(vec![(ArtifactKey::fetcher_schema(), 1u8)], Vec::new(), "fetcher", None);
    assert_eq!(quiet, vec![(ArtifactKey::fetcher_schema(), 1u8)]);
}

#[test]
fn put_artifact_replaces_in_place_or_appends() {
    let mut entries = vec![(ArtifactKey::new("a", "x"), 1u32)];
    put_artifact(&mut entries, ArtifactKey::new("a", "y"), 2);
    put_artifact(&mut entries, ArtifactKey::new("a", "x"), 3);
    assert_eq!(entries, vec![(ArtifactKey::new("a", "x"), 3), (ArtifactKey::new("a", "y"), 2)]);
}

#[test]
fn stage_refuses_a_payload_kind_outside_its_accept_set() {
    let accepts = vec![PayloadKind::Intermediate];
    assert!(check_accepts(&accepts, PayloadKind::Intermediate).is_ok());
    match check_accepts(&accepts, PayloadKind::Initial) {
        Err(AgentError::Mismatch { expected, got }) => {
            assert_eq!(expected, vec![PayloadKind::Intermediate]);
            assert_eq!(got, PayloadKind::Initial);
        }
        _ => panic!("a kind outside the accept-set is a mismatch"),
    }
}

#[test]
fn configured_stage_reads_its_input_and_hands_on_its_output() {
    let now = TurnInstant { epoch_ms: 1_767_225_600_000, offset_secs: 28_800 };
    let initial: AgentPayload<String> = AgentPayload::Initial(InitialPrompt {
        prompt: "revenue in March".into(),
        history: Vec::new(),
        now,
    });
    assert_eq!(initial.kind(), PayloadKind::Initial);

    // A fetcher accepts the initial prompt, produces records, and hands on working data.
    let (prompt, carried, at) = stage_input(&vec![PayloadKind::Initial], initial).unwrap();
    assert_eq!(prompt, "revenue in March");
    assert!(carried.is_empty());
    assert_eq!(at, now);
    let artifacts = stage_artifacts(
        carried,
        vec![(ArtifactKey::fetcher_records(), "rows".to_string())],
        "fetcher",
        None,
    );
    let handed = stage_output(OutputShape::Intermediate, prompt, "fetched".into(), artifacts, at);
    assert_eq!(handed.kind(), PayloadKind::Intermediate);

    // An initial-only stage refuses the working data.
    let refused = match stage_input(&vec![PayloadKind::Initial], handed) {
        Err(AgentError::Mismatch { expected, got }) => (expected, got),
        _ => panic!("working data is outside an initial-only accept-set"),
    };
    assert_eq!(refused, (vec![PayloadKind::Initial], PayloadKind::Intermediate));

    // A terminal stage turns working data into the user-facing result.
    let working: AgentPayload<String> = AgentPayload::Intermediate(IntermediateData {
        prompt: "revenue in March".into(),
        artifacts: vec![(ArtifactKey::fetcher_records(), "rows".to_string())],
        now,
    });
    let (prompt, carried, at) = stage_input(&vec![PayloadKind::Intermediate], working).unwrap();
    assert_eq!(carried.len(), 1);
    let artifacts = stage_artifacts(carried, Vec::new(), "analyst", Some("March: 12 kWh".into()));
    match stage_output(OutputShape::Final, prompt, "March: 12 kWh".into(), artifacts, at) {
        AgentPayload::Final(f) => {
            assert_eq!(f.user, "revenue in March");
            assert_eq!(f.assistant, "March: 12 kWh");
            assert_eq!(f.now, now);
            assert_eq!(f.artifacts.len(), 2);
            assert_eq!(f.artifacts[1].0, ArtifactKey::message("analyst"));
        }
        _ => panic!("a terminal stage yields the result"),
    }
}
