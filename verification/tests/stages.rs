use datacenter_agent::agent::clock::current_time_header;
use datacenter_agent::agent::config::{PipelineId, SubAgentId};
use datacenter_agent::agent::events::{AgentEvent, StageOutcome};
use datacenter_agent::agent::llm::{stop_error, StopReason};
use datacenter_agent::agent::run::PipelineRun;
use datacenter_agent::runtime::store::ledger::{
    apply_reserve, apply_settle, ReserveDecision, SettleStep,
};
use datacenter_agent::agent::config::OutputShape;
use datacenter_agent::agent::engine::{render_material, stage_user_turn};
use datacenter_agent::agent::payload::{AgentError, ArtifactKey, PayloadKind};
use datacenter_agent::agent::pipeline::{render_report, Finalizer};
use datacenter_agent::agent::stage::{
    stage_input, stage_output, stage_system_prompt, AgentPayload, FinalResult, InitialPrompt, IntermediateData,
    TurnInstant,
};
use datacenter_agent::agent::tool_loop::{
    find_artifact, stage_artifacts, LoopMessage, ToolOutcome, ToolUseLoop,
};

/// The pinned turn instant 2026-07-11 09:30:00 +08:00.
fn fixed_now() -> TurnInstant {
    TurnInstant { epoch_ms: 1_783_733_400_000, offset_secs: 28_800 }
}

/// A configured stage with no tools, run against a model that answers `reply` at once: reads its
/// input, hands the model its time header and instruction and the user turn, then assembles its
/// output. Returns the output and the transcript the model was handed.
fn run_stage(
    id: &str,
    instruction: &str,
    accepts: Vec<PayloadKind>,
    capture_message: bool,
    shape: OutputShape,
    reply: &str,
    input: AgentPayload<String>,
) -> Result<(AgentPayload<String>, Vec<String>), AgentError> {
    let (prompt, carried, now) = stage_input(&accepts, input)?;
    let material = render_material(&carried);
    let user = stage_user_turn(&prompt, &material);
    let header = current_time_header(now.epoch_ms, now.offset_secs).unwrap_or_default();
    let mut state: ToolUseLoop<String> = ToolUseLoop::new(format!("{header}{instruction}"), user);
    state.begin_turn()?;
    let handed: Vec<String> = state
        .messages()
        .iter()
        .map(|m| match m {
            LoopMessage::System(s) | LoopMessage::User(s) => s.clone(),
            _ => String::new(),
        })
        .collect();
    let (text, produced) = state.finish(reply.to_string());
    let message = if capture_message { Some(text.clone()) } else { None };
    let artifacts = stage_artifacts(carried, produced, id, message);
    Ok((stage_output(shape, prompt, text, artifacts, now), handed))
}

#[test]
fn fetcher_falls_on_a_variant_it_does_not_accept() {
    let out = run_stage(
        "fetcher",
        "You fetch data using the available tools.",
        vec![PayloadKind::Initial],
        false,
        OutputShape::Intermediate,
        "unused",
        AgentPayload::Final(FinalResult {
            user: "u".into(),
            assistant: "a".into(),
            now: fixed_now(),
            artifacts: Vec::new(),
        }),
    );
    assert!(matches!(out, Err(AgentError::Mismatch { got: PayloadKind::Final, .. })));
}

#[test]
fn writer_with_no_tools_produces_final_from_carried_artifacts() {
    let (out, handed) = run_stage(
        "writer",
        "Write a report from the material.",
        vec![PayloadKind::Intermediate],
        true,
        OutputShape::Final,
        "THE REPORT",
        AgentPayload::Intermediate(IntermediateData {
            prompt: "write it".into(),
            artifacts: vec![(ArtifactKey::fetcher_records(), "revenue=12345".to_string())],
            now: fixed_now(),
        }),
    )
    .unwrap();
    match out {
        AgentPayload::Final(f) => assert_eq!(f.assistant, "THE REPORT"),
        _ => panic!("expected Final"),
    }
    assert_eq!(handed[1], "write it\n\nMaterial:\n[fetcher.records] revenue=12345\n");
}

#[test]
fn a_stages_message_is_captured_as_a_first_class_artifact_when_enabled() {
    let (out, _) = run_stage(
        "analyst",
        "analyse the material",
        vec![PayloadKind::Intermediate],
        true,
        OutputShape::Intermediate,
        "## Analysis\nRevenue is up.",
        AgentPayload::Intermediate(IntermediateData {
            prompt: "analyse it".into(),
            artifacts: vec![(ArtifactKey::fetcher_records(), "{\"revenue\":12345}".to_string())],
            now: fixed_now(),
        }),
    )
    .unwrap();
    match out {
        AgentPayload::Intermediate(d) => {
            assert!(d.artifacts.contains(&(
                ArtifactKey::message("analyst"),
                "## Analysis\nRevenue is up.".to_string()
            )));
            assert!(d.artifacts.iter().any(|(k, _)| *k == ArtifactKey::fetcher_records()));
        }
        _ => panic!("expected Intermediate"),
    }
}

#[test]
fn run_prepends_the_payloads_now_as_a_current_time_header() {
    let (_, handed) = run_stage(
        "fetcher",
        "You fetch data using the available tools.",
        vec![PayloadKind::Initial],
        false,
        OutputShape::Final,
        "ok",
        AgentPayload::Initial(InitialPrompt {
            prompt: "revenue".into(),
            history: Vec::new(),
            now: fixed_now(),
        }),
    )
    .unwrap();
    let system = &handed[0];
    assert!(
        system.starts_with("# Current Time\n2026-07-11 09:30:00 +08:00\n\n"),
        "system prompt must open with the turn's time header, got:\n{system}"
    );
    assert!(system.contains("You fetch data using the available tools."));
}

#[test]
fn now_threads_unchanged_onto_the_terminal_result() {
    let (out, _) = run_stage(
        "fetcher",
        "You fetch data using the available tools.",
        vec![PayloadKind::Initial],
        false,
        OutputShape::Final,
        "done",
        AgentPayload::Initial(InitialPrompt {
            prompt: "hi".into(),
            history: Vec::new(),
            now: fixed_now(),
        }),
    )
    .unwrap();
    match out {
        AgentPayload::Final(f) => assert_eq!(f.now, fixed_now()),
        _ => panic!("expected Final"),
    }
}

/// A falcon-chart object `{version, chartType, title, data: []}`, pretty-printed as the finalizer
/// hands it to the renderer.
fn chart(kind: &str, title: &str) -> String {
    let mut obj = serde_json::Map::new();
    obj.insert("version".into(), serde_json::Value::from(1));
    obj.insert("chartType".into(), serde_json::Value::from(kind));
    obj.insert("title".into(), serde_json::Value::from(title));
    obj.insert("data".into(), serde_json::Value::Array(Vec::new()));
    serde_json::to_string_pretty(&serde_json::Value::Object(obj)).unwrap()
}

#[test]
fn render_report_appends_each_chart_as_a_falcon_block() {
    let charts = vec![chart("bar", "A"), chart("line", "B")];
    let out = render_report("## Analysis\nGood.", &charts);
    assert!(out.starts_with("## Analysis\nGood."));
    assert_eq!(out.matches("```falcon-chart").count(), 2);
    assert!(out.contains("\"title\": \"A\""));
    assert!(out.contains("\"title\": \"B\""));
    assert_eq!(out.matches("```").count(), 4);
}

#[test]
fn render_report_without_charts_is_just_the_report() {
    assert_eq!(render_report("hello\n\n", &[]), "hello");
    assert!(!render_report("hello", &[]).contains("falcon-chart"));
}

#[test]
fn finalizer_combines_report_and_charts_into_the_final_answer() {
    let finalizer = Finalizer::default_stage();
    assert_eq!(finalizer.report_key(), ArtifactKey::message("analyst"));
    let charts = vec![chart("bar", "近兩月營收")];
    let answer = finalizer
        .finish(PayloadKind::Intermediate, Some("## 營收分析\n近兩月成長。"), &charts)
        .unwrap();
    assert!(answer.starts_with("## 營收分析"));
    assert!(answer.contains("```falcon-chart"));
    assert!(answer.contains("\"title\": \"近兩月營收\""));
}

#[test]
fn finalizer_falls_on_a_missing_report() {
    match Finalizer::default_stage().finish(PayloadKind::Intermediate, None, &[]) {
        Err(AgentError::MissingArtifact(k)) => assert_eq!(k, ArtifactKey::message("analyst")),
        _ => panic!("expected MissingArtifact(analyst.message)"),
    }
}

#[test]
fn finalizer_falls_on_a_variant_it_does_not_accept() {
    let out = Finalizer::default_stage().finish(PayloadKind::Initial, Some("x"), &[]);
    assert!(matches!(out, Err(AgentError::Mismatch { got: PayloadKind::Initial, .. })));
}

#[test]
fn stage_system_prompt_opens_with_the_time_header() {
    assert_eq!(
        stage_system_prompt(fixed_now(), "Fetch."),
        "# Current Time\n2026-07-11 09:30:00 +08:00\n\nFetch."
    );
}

#[test]
fn dispatch_runs_granted_calls_in_order_and_stops_at_an_unknown_tool() {
    let names = vec!["echo".to_string(), "emit_chart".to_string()];
    let mut state: ToolUseLoop<String> = ToolUseLoop::new("sys".into(), "go".into());
    state.begin_turn().unwrap();
    state.on_calls(vec![
        ("c1".into(), "emit_chart".into()),
        ("c2".into(), "not_granted".into()),
        ("c3".into(), "echo".into()),
    ]);
    assert_eq!(state.dispatch(&names).unwrap(), Some((1, "c1".to_string())));
    state.record(
        ArtifactKey::charts_spec(),
        "c1".into(),
        ToolOutcome::Produced("chart".into()),
        "chart".into(),
    );
    assert!(matches!(
        state.dispatch(&names),
        Err(AgentError::UnknownTool(n)) if n == "not_granted"
    ));
    // The rest of the batch is abandoned.
    assert_eq!(state.dispatch(&names).unwrap(), None);
}

#[test]
fn pipeline_run_frames_each_stage_and_closes_with_finished() {
    let stages = vec![SubAgentId("fetcher".into()), SubAgentId("writer".into())];
    let mut run = PipelineRun::start(&PipelineId("agent".into()), Some(stages)).unwrap();
    let mut events = Vec::new();

    let (agent, opening) = run.next_stage(PayloadKind::Initial).unwrap();
    assert_eq!(agent, SubAgentId("fetcher".into()));
    events.push(opening);
    events.extend(run.stage_ok(&[], &[ArtifactKey::fetcher_records()]));
    assert_eq!(run.finish(Some("early")), None);

    let (agent, opening) = run.next_stage(PayloadKind::Intermediate).unwrap();
    assert_eq!(agent, SubAgentId("writer".into()));
    events.push(opening);
    events.extend(run.stage_ok(&[ArtifactKey::fetcher_records()], &[ArtifactKey::fetcher_records()]));
    assert!(run.next_stage(PayloadKind::Final).is_none());
    events.extend(run.finish(Some("the answer")));

    assert_eq!(
        events,
        vec![
            AgentEvent::StageStarted { agent: SubAgentId("fetcher".into()), input: PayloadKind::Initial },
            AgentEvent::StageProduced {
                agent: SubAgentId("fetcher".into()),
                keys: vec![ArtifactKey::fetcher_records()],
            },
            AgentEvent::StageFinished { agent: SubAgentId("fetcher".into()), outcome: StageOutcome::Success },
            AgentEvent::StageStarted {
                agent: SubAgentId("writer".into()),
                input: PayloadKind::Intermediate,
            },
            AgentEvent::StageFinished { agent: SubAgentId("writer".into()), outcome: StageOutcome::Success },
            AgentEvent::Finished { assistant: "the answer".into() },
        ]
    );
}

#[test]
fn pipeline_run_stops_at_a_failed_stage() {
    let stages = vec![SubAgentId("a".into()), SubAgentId("b".into())];
    let mut run = PipelineRun::start(&PipelineId("p".into()), Some(stages)).unwrap();
    run.next_stage(PayloadKind::Initial).unwrap();
    let closing = run.stage_err(&AgentError::Capability("boom".into()));
    assert_eq!(
        closing[0],
        AgentEvent::StageFinished { agent: SubAgentId("a".into()), outcome: StageOutcome::Failure }
    );
    assert_eq!(closing[1], AgentEvent::Error { message: "capability error: boom".into() });
    assert!(run.next_stage(PayloadKind::Intermediate).is_none());
    assert_eq!(run.finish(Some("x")), None);
    assert!(matches!(
        PipelineRun::start(&PipelineId("nope".into()), None),
        Err(AgentError::Capability(m)) if m == "unknown pipeline: nope"
    ));
}

#[test]
fn truncated_or_filtered_turns_fail() {
    assert!(matches!(
        stop_error(Some(StopReason::Length)),
        Some(AgentError::Capability(m)) if m == "chat response truncated at token limit"
    ));
    assert!(matches!(
        stop_error(Some(StopReason::ContentFilter)),
        Some(AgentError::Capability(m)) if m == "chat response blocked by content filter"
    ));
    assert!(stop_error(Some(StopReason::Stop)).is_none());
    assert!(stop_error(Some(StopReason::ToolCalls)).is_none());
    assert!(stop_error(None).is_none());
}

#[test]
fn finalizer_run_answers_with_the_report_and_carries_provenance() {
    let finalizer = Finalizer::default_stage();
    let artifacts = vec![
        (ArtifactKey::fetcher_records(), "rows".to_string()),
        (ArtifactKey::message("analyst"), "## Report\n".to_string()),
        (ArtifactKey::charts_spec(), "C".to_string()),
    ];
    let out = finalizer
        .run(
            AgentPayload::Intermediate(IntermediateData {
                prompt: "q".into(),
                artifacts: artifacts.clone(),
                now: fixed_now(),
            }),
            |v: &String| v.clone(),
            |v: &String| vec![format!("{{\"chart\": \"{v}\"}}")],
        )
        .unwrap();
    match out {
        AgentPayload::Final(f) => {
            assert_eq!(f.user, "q");
            assert_eq!(f.now, fixed_now());
            assert_eq!(f.artifacts, artifacts);
            assert_eq!(f.assistant, "## Report\n\n```falcon-chart\n{\"chart\": \"C\"}\n```");
        }
        _ => panic!("expected Final"),
    }
    let missing = finalizer.run(
        AgentPayload::Intermediate(IntermediateData {
            prompt: "q".into(),
            artifacts: vec![(ArtifactKey::fetcher_records(), "rows".to_string())],
            now: fixed_now(),
        }),
        |v: &String| v.clone(),
        |_: &String| Vec::new(),
    );
    assert!(matches!(missing, Err(AgentError::MissingArtifact(k)) if k == ArtifactKey::message("analyst")));
    assert_eq!(find_artifact(&artifacts, &ArtifactKey::charts_spec()), Some(2));
}

#[test]
fn ledger_writes_only_what_the_decision_allows() {
    assert_eq!(apply_reserve(ReserveDecision::Reserve, 10, 5, 3), (10, 8));
    assert_eq!(apply_reserve(ReserveDecision::Replay, 10, 5, 3), (10, 5));
    assert_eq!(apply_reserve(ReserveDecision::Exceeded, 10, 5, 3), (10, 5));
    assert_eq!(apply_settle(SettleStep::Apply { actual_micro: 4 }, 10, 5, 3), (14, 2));
    assert_eq!(apply_settle(SettleStep::AlreadySettled, 10, 5, 3), (10, 5));
    assert_eq!(apply_settle(SettleStep::Mismatch, 10, 5, 3), (10, 5));
    assert_eq!(apply_settle(SettleStep::Reconcile, 10, 5, 3), (10, 5));
}
