use datacenter_agent::llm_connector::{
    non_convergence_error, tool_output, LlmEvent, ToolCallAccumulator, ToolLoop, TurnOutcome,
    MAX_ITERATIONS,
};
use datacenter_agent::runtime::audit::{
    hash_identifier, redact_secrets, AuditActor, AuditCtx, AuditEvent, AuditFailurePolicy,
    AuditWriter,
};
use datacenter_agent::runtime::config::{
    Assembly, ClassifierTuning, ConfidenceThresholds, InputConfig, IntentDef, MarginTier,
    MemoryLimits, RuntimeConfig, Thresholds,
};
use datacenter_agent::runtime::error::RuntimeError;
use datacenter_agent::runtime::eval::baseline::{
    validate_response_baseline, BaselineStatus, ResponseBaseline, ResponseCase,
};
use datacenter_agent::runtime::eval::fixtures::PipelineFixture;
use datacenter_agent::runtime::eval::report::EvalReport;
use datacenter_agent::runtime::eval::runner::{
    check_live_env, eval_mode, live_eval_system_prompt, replay_totals_fit, observe_live, pipeline_report, ready_baseline, record_case,
    replay_report, EvalMode,
};
use datacenter_agent::runtime::guardrails::injection::InjectionDetector;
use datacenter_agent::runtime::guardrails::input_guard::validate_prompt;
use datacenter_agent::runtime::input::normalizer::normalize_text;
use datacenter_agent::runtime::orchestrator::llm_event_to_turn_frame;
use datacenter_agent::runtime::schema::AgentTurnFrame;

#[test]
fn accepts_prompt_at_runtime_limit() {
    let prompt = "x".repeat(4_000);
    assert!(validate_prompt(&prompt, 4_000).is_ok());
}

#[test]
fn rejects_prompt_over_runtime_limit() {
    let prompt = "x".repeat(4_001);
    let err = validate_prompt(&prompt, 4_000).expect_err("prompt over cap should fail");
    assert!(matches!(err, RuntimeError::InputTooLong(4_001)));
}

#[test]
fn accepts_approved_2001_char_parity_diff() {
    let prompt = "x".repeat(2_001);
    assert!(validate_prompt(&prompt, 4_000).is_ok());
}

#[test]
fn maps_fullwidth_and_cjk_punctuation() {
    let normalized = normalize_text(" 「近６個月」、營收？ ");
    assert_eq!(normalized, "\"近6個月\",營收?");
}

#[test]
fn collapses_whitespace_and_lowercases_ascii() {
    let normalized = normalize_text(" Revenue \n\t TREND ");
    assert_eq!(normalized, "revenue trend");
}

#[test]
fn maps_llm_events_to_runtime_frames() {
    assert_eq!(
        llm_event_to_turn_frame(LlmEvent::Token("hi".into())),
        AgentTurnFrame::Token { data: "hi".into() }
    );
    assert_eq!(
        llm_event_to_turn_frame(LlmEvent::ToolCalled {
            name: "query".into(),
            args_hash: "abc".into(),
        }),
        AgentTurnFrame::ToolCalled {
            name: "query".into(),
            args_hash: "abc".into(),
        }
    );
    assert_eq!(
        llm_event_to_turn_frame(LlmEvent::ToolResult {
            name: "query".into(),
            bytes: 42,
            ok: true,
        }),
        AgentTurnFrame::ToolResult {
            name: "query".into(),
            bytes: 42,
            ok: true,
        }
    );
    assert_eq!(
        llm_event_to_turn_frame(LlmEvent::Clear),
        AgentTurnFrame::Clear
    );
    assert_eq!(
        llm_event_to_turn_frame(LlmEvent::Done),
        AgentTurnFrame::Done
    );
    assert_eq!(
        llm_event_to_turn_frame(LlmEvent::Error("boom".into())),
        AgentTurnFrame::Error {
            data: "boom".into(),
        }
    );
}

fn strings(items: &[&str]) -> Vec<String> {
    items.iter().map(|s| s.to_string()).collect()
}

/// A small EV-charging capability pack built in code.
fn pack() -> RuntimeConfig {
    let classifier = ClassifierTuning {
        option_match_confidence: 9_500,
        text_override_confidence: 8_500,
        unknown_confidence: 2_500,
        no_score_floor: 0,
        ambiguous_confidence: 5_000,
        margin_tiers: vec![
            MarginTier {
                min_margin: 2,
                confidence: 9_000,
            },
            MarginTier {
                min_margin: 1,
                confidence: 7_000,
            },
        ],
        keyword_long_chars: 4,
        keyword_long_weight: 2,
        keyword_short_weight: 1,
    };
    let thresholds = Thresholds {
        input: InputConfig::default(),
        confidence: ConfidenceThresholds {
            answer_normal: 8_000,
            answer_gray: 5_000,
            option_path: 9_500,
            llm_override_floor: 7_000,
        },
        classifier,
        memory: MemoryLimits {
            max_turns: 5,
            max_memory_context_chars: 2_000,
        },
    };
    let assembly = Assembly {
        input_stages: strings(&["normalize", "injection", "intent", "slots"]),
        answer_policy_backend: "rule".into(),
        llm_normalizer_enabled: false,
        llm_normalizer_backend: "disabled".into(),
        memory_enabled: false,
        memory_backend: "in_memory".into(),
        audit_sink: "noop".into(),
        audit_failure_policy: AuditFailurePolicy::FailOpen,
        guardrails: strings(&["injection"]),
        extractors: strings(&["time", "metric", "asset", "rank"]),
        pipeline_evaluators: Vec::new(),
        response_evaluators: Vec::new(),
        fixtures: "evals/fixtures.json".into(),
        baseline: "evals/response-baseline.json".into(),
    };
    RuntimeConfig {
        intent_allowlist: strings(&["member", "revenue", "unknown"]),
        intents: vec![
            IntentDef {
                id: "member".into(),
                keywords: strings(&["會員", "member"]),
            },
            IntentDef {
                id: "revenue".into(),
                keywords: strings(&["營收", "revenue"]),
            },
            IntentDef {
                id: "unknown".into(),
                keywords: Vec::new(),
            },
        ],
        option_prefixes: vec![("rev".into(), "revenue".into())],
        metric_aliases: vec![("營收".into(), "revenue".into())],
        asset_allowlist: strings(&["A1"]),
        thresholds,
        input: InputConfig::default(),
        injection_detector: InjectionDetector::new(
            1,
            strings(&["(?i)ignore\\s+(all\\s+)?previous\\s+instructions"]),
        )
        .expect("test injection patterns should compile"),
        assembly,
        input_stages: strings(&["normalize", "injection", "intent", "slots"]),
    }
}

fn fixture(
    id: &str,
    prompt: &str,
    option_id: Option<&str>,
    intent: &str,
    metric: Option<&str>,
    rank: Option<u32>,
) -> PipelineFixture {
    PipelineFixture {
        id: id.into(),
        prompt: prompt.into(),
        option_id: option_id.map(str::to_string),
        expected_intent: intent.into(),
        expected_metric: metric.map(str::to_string),
        expected_asset: None,
        expected_rank_limit: rank,
    }
}

#[test]
fn pipeline_only_runs_default_pack_fixtures() {
    let fixtures = vec![
        fixture("revenue", "近三個月營收", None, "revenue", Some("revenue"), None),
        fixture("member-top", "Top 5 會員", None, "member", None, Some(5)),
        fixture("option", "hello", Some("rev.kpi"), "revenue", None, None),
    ];
    let report = pipeline_report(&pack(), &fixtures).expect("pipeline eval should run");
    assert!(report.passed > 0);
    assert_eq!(report.failed, 0);
}

#[test]
fn replay_mode_rejects_pending_baseline() {
    let baseline = ResponseBaseline {
        status: BaselineStatus::Pending,
        provenance: "pending: no approved replay artifact yet".into(),
        cases: Vec::new(),
    };
    let err = replay_report("config/runtime/evals/response-baseline.json", &baseline)
        .expect_err("pending baseline should not pass response eval");
    assert!(err.message().contains("pending or empty"));
}

fn eval_args(pipeline_only: bool, response: bool, replay: Option<&str>, live: bool) -> Result<EvalMode, String> {
    eval_mode(
        pipeline_only,
        response,
        replay.map(str::to_string),
        live,
        "config/runtime/evals/response-baseline.json".to_string(),
    )
}

#[test]
fn parses_pipeline_only_mode() {
    assert_eq!(
        eval_args(true, false, None, false).expect("mode should build"),
        EvalMode::PipelineOnly
    );
}

#[test]
fn parses_response_replay_mode() {
    assert_eq!(
        eval_args(false, true, Some("artifact.json"), false).expect("mode should build"),
        EvalMode::ResponseReplay {
            artifact: "artifact.json".to_string()
        }
    );
}

#[test]
fn parses_response_live_mode() {
    assert_eq!(
        eval_args(false, true, None, true).expect("mode should build"),
        EvalMode::ResponseLive {
            baseline: "config/runtime/evals/response-baseline.json".to_string()
        }
    );
}

#[test]
fn rejects_missing_response_submode() {
    assert!(eval_args(false, true, None, false)
        .expect_err("mode should fail")
        .contains("--response requires"));
}

#[test]
fn rejects_conflicting_eval_flags() {
    assert!(eval_args(true, true, None, false)
        .expect_err("mode should fail")
        .contains("cannot be combined"));
    assert!(eval_args(false, true, Some("a.json"), true)
        .expect_err("mode should fail")
        .contains("mutually exclusive"));
    assert!(eval_args(false, false, None, false)
        .expect_err("mode should fail")
        .starts_with("usage: eval"));
}

fn baseline_case(id: &str, prompt: &str) -> ResponseCase {
    ResponseCase {
        id: id.to_string(),
        prompt: prompt.to_string(),
        expected_response: None,
        actual_response: None,
        must_include: Vec::new(),
        must_not_include: Vec::new(),
        max_latency_ms: None,
        max_tokens: None,
        expected_refused: None,
        expected_fallback: None,
        latency_ms: None,
        tokens: None,
        refused: false,
        fallback: false,
    }
}

fn loaded(cases: Vec<ResponseCase>) -> ResponseBaseline {
    ResponseBaseline {
        status: BaselineStatus::Loaded,
        provenance: "unit test".to_string(),
        cases,
    }
}

#[test]
fn loaded_response_baseline_requires_cases() {
    let err = validate_response_baseline("baseline.json", &loaded(Vec::new()))
        .expect_err("loaded baseline with no cases should fail");
    assert!(err.message().contains("has no cases"));
}

#[test]
fn response_baseline_rejects_duplicate_case_ids() {
    let baseline = loaded(vec![baseline_case("same", "營收"), baseline_case("same", "站點")]);
    let err = validate_response_baseline("baseline.json", &baseline)
        .expect_err("duplicate ids should fail");
    assert!(err.message().contains("duplicate case id"));
}

#[test]
fn response_baseline_rejects_empty_case_prompt() {
    let baseline = loaded(vec![baseline_case("empty-prompt", "   ")]);
    let err = validate_response_baseline("baseline.json", &baseline)
        .expect_err("empty prompt should fail");
    assert!(err.message().contains("empty prompt"));
}

#[test]
fn redact_secrets_masks_known_tokens() {
    let input = "Bearer abc OPENROUTER_API_KEY=sk-live GLOBAL_TOKEN=secret api_key=test";

    let redacted = redact_secrets(input);

    assert!(!redacted.contains("sk-live"));
    assert!(!redacted.contains("secret"));
    assert!(!redacted.contains("abc"));
    assert!(redacted.contains("[REDACTED]"));
}

#[test]
fn test_assemble_tool_calls() {
    let mut accum = ToolCallAccumulator::new();
    accum.push(0, None, Some("tool_1".to_string()), Some("{}".to_string()));
    accum.push(1, Some("call_2".to_string()), None, Some("{}".to_string()));
    accum.push(
        2,
        Some("call_3".to_string()),
        Some("tool_3".to_string()),
        Some("{\"key\": \"val\"}".to_string()),
    );

    let resolved = accum.assemble();
    assert_eq!(resolved.len(), 1);
    assert_eq!(resolved[0].id, "call_3");
    assert_eq!(resolved[0].name, "tool_3");
    assert_eq!(resolved[0].arguments, "{\"key\": \"val\"}");
}

#[test]
fn tool_loop_streams_tokens_then_finishes_without_tools() {
    let mut lp = ToolLoop::new();
    assert!(lp.begin_turn());
    assert_eq!(lp.on_content("Hi".to_string()), Some(LlmEvent::Token("Hi".to_string())));
    assert_eq!(lp.on_content(String::new()), None);
    let (events, outcome) = lp.end_turn();
    assert_eq!(events, vec![LlmEvent::Done]);
    assert!(matches!(outcome, TurnOutcome::Answer));
}

#[test]
fn tool_loop_clears_the_preamble_and_runs_requested_tools() {
    let mut lp = ToolLoop::new();
    assert!(lp.begin_turn());
    lp.on_content("let me check".to_string());
    lp.on_tool_fragment(0, Some("c1".to_string()), Some("bill_revenue".to_string()), Some("{\"y\":".to_string()));
    lp.on_tool_fragment(0, None, None, Some("1}".to_string()));
    let (events, outcome) = lp.end_turn();
    assert_eq!(events, vec![LlmEvent::Clear]);
    match outcome {
        TurnOutcome::RunTools { content, calls } => {
            assert_eq!(content, "let me check");
            assert_eq!(calls.len(), 1);
            assert_eq!(calls[0].name, "bill_revenue");
            assert_eq!(calls[0].arguments, "{\"y\":1}");
        }
        TurnOutcome::Answer => panic!("expected tool calls"),
    }
}

#[test]
fn tool_loop_gives_up_after_the_turn_cap() {
    let mut lp = ToolLoop::new();
    for _ in 0..MAX_ITERATIONS {
        assert!(lp.begin_turn());
    }
    assert!(!lp.begin_turn());
    assert_eq!(
        non_convergence_error(),
        "agent did not reach a final answer within 16 iterations"
    );
    assert_eq!(
        lp.give_up(),
        LlmEvent::Error("agent did not reach a final answer within 16 iterations".to_string())
    );
}

#[test]
fn a_stream_ends_with_exactly_one_terminal_event() {
    let mut lp = ToolLoop::new();
    let mut events: Vec<LlmEvent> = Vec::new();
    assert!(lp.begin_turn());
    events.extend(lp.on_content("checking".to_string()));
    lp.on_tool_fragment(0, Some("c1".to_string()), Some("bill_revenue".to_string()), Some("{}".to_string()));
    let (turn_events, outcome) = lp.end_turn();
    events.extend(turn_events);
    assert!(matches!(outcome, TurnOutcome::RunTools { .. }));
    assert!(lp.begin_turn());
    events.extend(lp.on_content("done".to_string()));
    let (turn_events, outcome) = lp.end_turn();
    events.extend(turn_events);
    assert!(matches!(outcome, TurnOutcome::Answer));
    let terminal = events
        .iter()
        .filter(|e| matches!(e, LlmEvent::Done | LlmEvent::Error(_)))
        .count();
    assert_eq!(terminal, 1);
    assert_eq!(events.last(), Some(&LlmEvent::Done));
}

#[test]
fn tool_output_spells_out_failures() {
    assert_eq!(tool_output(Ok("rows".to_string())), "rows");
    assert_eq!(
        tool_output(Err("timeout".to_string())),
        "ERROR: tool call failed: timeout"
    );
}

fn audit_ctx() -> AuditCtx {
    AuditCtx {
        request_id: "req-1".into(),
        session_id: Some("session-1".into()),
        route: "/agent".into(),
        actor: Some(AuditActor {
            ip: Some("203.0.113.9".into()),
            user_agent: Some("Bearer secret-user-agent".into()),
        }),
    }
}

#[test]
fn audit_writer_assigns_monotonic_seq_and_redacts_actor() {
    let mut writer = AuditWriter::new(AuditFailurePolicy::FailClosed);

    let first = writer.next_record(
        &audit_ctx(),
        AuditEvent::RequestReceived {
            input_hash: hash_identifier("prompt"),
            input_chars: 6,
            option_id: None,
        },
    );
    let second = writer.next_record(
        &audit_ctx(),
        AuditEvent::ResponseCompleted {
            response_hash: hash_identifier("answer"),
            response_chars: 6,
            duration_ms: 10,
            status: "completed".into(),
        },
    );

    assert_eq!(first.seq, 1);
    assert_eq!(second.seq, 2);
    assert_eq!(first.request_id, "req-1");
    assert_eq!(
        first.actor_ip.as_deref(),
        Some(hash_identifier("203.0.113.9").as_str())
    );
    assert_eq!(
        first.actor_user_agent.as_deref(),
        Some(hash_identifier("Bearer secret-user-agent").as_str())
    );
}

#[test]
fn audit_failure_policy_fail_open_continues() {
    let writer = AuditWriter::new(AuditFailurePolicy::FailOpen);
    let result = writer.settle(Err(RuntimeError::AuditSink("sink down".into())));
    assert!(result.is_ok());
}

#[test]
fn audit_failure_policy_fail_closed_returns_error() {
    let writer = AuditWriter::new(AuditFailurePolicy::FailClosed);
    let result = writer.settle(Err(RuntimeError::AuditSink("sink down".into())));
    assert!(matches!(result, Err(RuntimeError::AuditSink(_))));
}

#[test]
fn hash_identifier_is_the_sha256_hex_digest() {
    assert_eq!(
        hash_identifier("abc"),
        "ba7816bf8f01cfea414140de5dae2223b00361a396177a9cb410ff61f20015ad"
    );
}

#[test]
fn live_observation_estimates_tokens_and_reads_refusals() {
    let o = observe_live("I cannot comply with that".to_string(), 42);
    assert_eq!(o.latency_ms, 42);
    assert_eq!(o.tokens, 5);
    assert!(o.refused);
    assert!(!o.fallback);
    let empty = observe_live(String::new(), 0);
    assert_eq!(empty.tokens, 1);
    let fallback = observe_live("初步判讀如下".to_string(), 1);
    assert!(fallback.fallback);
}

#[test]
fn recorded_cases_add_up_into_the_report() {
    let mut report = EvalReport::default();
    let mut case = baseline_case("c1", "營收");
    case.must_include = vec!["營收".to_string()];
    let pass = observe_live("本月營收 100".to_string(), 10);
    record_case(&mut report, &case, &pass);
    let fail = observe_live("no data".to_string(), 5);
    record_case(&mut report, &case, &fail);
    assert_eq!(report.passed, 1);
    assert_eq!(report.failed, 1);
    assert_eq!(report.latency_ms, 15);
    assert_eq!(report.tokens, 4);
    assert_eq!(
        report.regressions,
        vec!["c1: response missing required substring `營收`".to_string()]
    );
}

#[test]
fn live_system_prompt_is_the_time_header_then_the_conventions() {
    assert_eq!(
        live_eval_system_prompt("base", Some("use ISO dates"), "# Current Time\nT\n\n"),
        "# Current Time\nT\n\nbase\n\n# MCP server conventions (apply to all tools)\nuse ISO dates"
    );
    assert_eq!(live_eval_system_prompt("base", Some("  "), "H"), "Hbase");
}

#[test]
fn response_evals_need_an_approved_baseline() {
    let pending = ResponseBaseline {
        status: BaselineStatus::Pending,
        provenance: "draft".to_string(),
        cases: vec![baseline_case("c1", "營收")],
    };
    match ready_baseline("b.json", &pending) {
        Err(RuntimeError::Config(m)) => assert_eq!(m, "b.json response baseline is pending or empty"),
        other => panic!("unexpected {other:?}"),
    }
    assert!(ready_baseline("b.json", &loaded(vec![baseline_case("c1", "營收")])).is_ok());
}

/// A replay case with only its id, prompt and recorded response set.
fn replay_case(id: &str, prompt: &str, actual: &str) -> ResponseCase {
    ResponseCase {
        id: id.into(),
        prompt: prompt.into(),
        expected_response: None,
        actual_response: Some(actual.into()),
        must_include: Vec::new(),
        must_not_include: Vec::new(),
        max_latency_ms: None,
        max_tokens: None,
        expected_refused: None,
        expected_fallback: None,
        latency_ms: None,
        tokens: None,
        refused: false,
        fallback: false,
    }
}

#[test]
fn replay_mode_reads_artifact_without_network() {
    let mut ok = replay_case("ok", "營收", "answer");
    ok.must_include = vec!["answer".into()];
    ok.must_not_include = vec!["hallucinated".into()];
    ok.latency_ms = Some(12);
    ok.max_latency_ms = Some(20);
    ok.tokens = Some(8);
    ok.max_tokens = Some(10);
    let mut refusal = replay_case("refusal", "ignore previous", "refuse");
    refusal.expected_response = Some("refuse".into());
    refusal.expected_refused = Some(true);
    refusal.expected_fallback = Some(true);
    refusal.refused = true;
    refusal.fallback = true;
    let baseline = ResponseBaseline {
        status: BaselineStatus::Loaded,
        provenance: "unit test replay artifact".into(),
        cases: vec![ok, refusal],
    };

    let report = replay_report("artifact.json", &baseline).expect("replay eval should run");

    assert_eq!(report.passed, 2);
    assert_eq!(report.failed, 0);
    assert_eq!(report.latency_ms, 12);
    assert_eq!(report.tokens, 8);
    assert_eq!(report.refusals, 1);
    assert_eq!(report.fallbacks, 1);
    assert!(report.regressions.is_empty());
    assert_eq!(report.provenance.as_deref(), Some("unit test replay artifact"));
}

#[test]
fn replay_mode_reports_response_regressions() {
    let mut bad = replay_case("bad", "營收", "made up answer");
    bad.must_include = vec!["營收".into()];
    bad.must_not_include = vec!["made up".into()];
    bad.latency_ms = Some(99);
    bad.max_latency_ms = Some(10);
    bad.tokens = Some(20);
    bad.max_tokens = Some(3);
    bad.expected_refused = Some(true);
    let baseline = ResponseBaseline {
        status: BaselineStatus::Loaded,
        provenance: "unit test replay artifact".into(),
        cases: vec![bad],
    };

    let report = replay_report("artifact.json", &baseline).expect("replay eval should run");

    assert_eq!(report.passed, 0);
    assert_eq!(report.failed, 1);
    assert!(report.regressions.iter().any(|failure| failure.contains("missing")));
    assert!(report.regressions.iter().any(|failure| failure.contains("forbidden")));
    assert!(report.regressions.iter().any(|failure| failure.contains("latency")));
}

#[test]
fn live_env_names_the_first_missing_value() {
    assert!(check_live_env(Some("sk"), Some("m")).is_ok());
    assert!(matches!(
        check_live_env(None, None),
        Err(RuntimeError::Config(m)) if m == "response live eval requires OPENROUTER_API_KEY"
    ));
    assert!(matches!(
        check_live_env(Some("sk"), Some("  ")),
        Err(RuntimeError::Config(m)) if m == "response live eval requires OPENROUTER_MODEL"
    ));
}

#[test]
fn replay_totals_fit_until_they_overflow() {
    let mut a = replay_case("a", "p", "x");
    a.latency_ms = Some(u64::MAX);
    let mut b = replay_case("b", "p", "y");
    b.latency_ms = Some(1);
    assert!(replay_totals_fit(&vec![a.clone()]));
    assert!(!replay_totals_fit(&vec![a.clone(), b.clone()]));
    let mut c = b.clone();
    c.actual_response = None;
    assert!(replay_totals_fit(&vec![a, c]));
}

#[test]
fn a_failed_stream_ends_with_its_error() {
    let mut lp = ToolLoop::new();
    assert_eq!(lp.fail("open chat stream: refused".to_string()), LlmEvent::Error("open chat stream: refused".to_string()));
}
