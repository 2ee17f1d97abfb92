use datacenter_agent::model::History;
use datacenter_agent::runtime::audit::AuditEvent;
use datacenter_agent::runtime::config::ConfidenceThresholds;
use datacenter_agent::runtime::guardrails::answer_policy::{
    AnswerDecision, AnswerPolicy, RuleAnswerPolicy,
};
use datacenter_agent::runtime::guardrails::injection::InjectionDetector;
use datacenter_agent::runtime::guardrails::input_guard::validate_prompt;
use datacenter_agent::runtime::memory::store::{
    InMemorySessionStore, SessionMemoryScope, SessionMemoryStore, SessionMemoryTurn,
};
use datacenter_agent::runtime::orchestrator::{
    apply_memory_context, apply_session_memory, memory_turn, refuse_turn, rejected_turn,
    request_received, run_frames, start_turn, turn_prelude, wants_llm_normalizer,
    AgentTurnOutcome, TurnStart,
};
use datacenter_agent::runtime::schema::{
    AgentTurnFrame, AgentTurnInput, NormalizedInput, NormalizedSlots,
};

fn turn_input(prompt: &str) -> AgentTurnInput {
    AgentTurnInput {
        request_id: "req-1".into(),
        prompt: prompt.into(),
        raw_input: prompt.into(),
        history: Vec::new(),
        session_id: None,
        option_id: None,
    }
}

fn normalized(intent: &str, confidence: u32) -> NormalizedInput {
    NormalizedInput {
        prompt: "prompt".into(),
        intent: intent.into(),
        confidence,
        candidate_intents: Vec::new(),
        intent_source: None,
        slots: NormalizedSlots::default(),
        warnings: Vec::new(),
    }
}

fn policy() -> RuleAnswerPolicy {
    RuleAnswerPolicy::new(&ConfidenceThresholds {
        answer_normal: 7_000,
        answer_gray: 5_000,
        option_path: 9_500,
        llm_override_floor: 8_000,
    })
}

fn token(data: &str) -> AgentTurnFrame {
    AgentTurnFrame::Token { data: data.into() }
}

#[test]
fn clear_frame_clears_buffer() {
    let run = run_frames(
        String::new(),
        &vec![token("preamble"), AgentTurnFrame::Clear, token("final"), AgentTurnFrame::Done],
        "revenue",
        10,
    );
    assert_eq!(
        run.outcome,
        AgentTurnOutcome::Final {
            response: "final".into(),
            intent: "revenue".into(),
        }
    );
    assert!(run
        .records
        .iter()
        .any(|record| matches!(record, AuditEvent::AnswerCleared)));
}

#[test]
fn tool_frames_are_audited() {
    let run = run_frames(
        String::new(),
        &vec![
            AgentTurnFrame::ToolCalled {
                name: "query".into(),
                args_hash: "abc".into(),
            },
            AgentTurnFrame::ToolResult {
                name: "query".into(),
                bytes: 123,
                ok: true,
            },
            token("answer"),
            AgentTurnFrame::Done,
        ],
        "revenue",
        10,
    );
    assert!(run
        .records
        .iter()
        .any(|record| matches!(record, AuditEvent::ToolCalled { .. })));
    assert!(run
        .records
        .iter()
        .any(|record| matches!(record, AuditEvent::ToolResult { .. })));
    match run.closing {
        Some((remember, AuditEvent::ResponseCompleted { status, response_chars, .. })) => {
            assert!(remember);
            assert_eq!(status, "completed");
            assert_eq!(response_chars, 6);
        }
        other => panic!("expected a completed closing, got {other:?}"),
    }
}

#[test]
fn refusal_does_not_call_upstream() {
    let decision = policy().decide(&normalized("unknown", 2_500));
    match start_turn(&decision) {
        TurnStart::Refuse { reason, copy } => {
            assert_eq!(reason, "off_scope");
            let (refused, completed, outcome) = refuse_turn(&reason, 5);
            assert_eq!(refused, AuditEvent::Refused { reason: "off_scope".into() });
            assert!(matches!(completed, AuditEvent::ResponseCompleted { ref status, .. } if status == "refused"));
            assert_eq!(outcome, AgentTurnOutcome::Refused { reason, copy });
        }
        TurnStart::Run { .. } => panic!("an off-scope turn must not reach the agent"),
    }
}

#[test]
fn disclaimer_is_prepended_before_agent_tokens() {
    let decision = policy().decide(&normalized("revenue", 6_000));
    let prefix = match start_turn(&decision) {
        TurnStart::Run { prefix } => prefix,
        TurnStart::Refuse { .. } => panic!("a gray-confidence turn runs"),
    };
    let run = run_frames(prefix, &vec![token("body"), AgentTurnFrame::Done], "revenue", 1);
    let AgentTurnOutcome::Final { response, .. } = run.outcome else {
        panic!("expected final answer");
    };
    assert!(response.starts_with("（以下為初步判讀"));
    assert!(response.ends_with("body"));
}

#[test]
fn upstream_error_empty_buffer_fails_but_partial_buffer_aborts() {
    let failed = run_frames(
        String::new(),
        &vec![AgentTurnFrame::Error {
            data: "upstream down".into(),
        }],
        "revenue",
        1,
    );
    assert_eq!(
        failed.outcome,
        AgentTurnOutcome::Error {
            code: "upstream_error".into(),
            status: 502,
        }
    );
    assert!(matches!(failed.closing, Some((false, AuditEvent::ResponseFailed { .. }))));

    let aborted = run_frames(
        String::new(),
        &vec![
            token("partial"),
            AgentTurnFrame::Error {
                data: "client gone".into(),
            },
        ],
        "revenue",
        1,
    );
    assert_eq!(
        aborted.outcome,
        AgentTurnOutcome::Aborted {
            response: "partial".into(),
        }
    );
}

#[test]
fn stream_without_a_terminal_frame_aborts_with_what_was_said() {
    let run = run_frames(String::new(), &vec![token("half")], "revenue", 1);
    assert_eq!(
        run.outcome,
        AgentTurnOutcome::Aborted {
            response: "half".into(),
        }
    );
    assert!(run.closing.is_none());
}

#[test]
fn frames_after_the_terminal_frame_are_ignored() {
    let run = run_frames(
        String::new(),
        &vec![token("a"), AgentTurnFrame::Done, token("b")],
        "revenue",
        1,
    );
    assert_eq!(run.response, "a");
}

#[test]
fn llm_normalizer_not_called_for_high_confidence_input() {
    assert!(!wants_llm_normalizer(9_000, 7_000, true));
    assert!(wants_llm_normalizer(2_500, 7_000, true));
    assert!(!wants_llm_normalizer(2_500, 7_000, false));
}

#[test]
fn rejected_request_is_audited() {
    let err = validate_prompt("   ", 4_000).expect_err("a blank prompt is rejected");
    let (audit, outcome) = rejected_turn(&err);
    assert_eq!(
        outcome,
        AgentTurnOutcome::Error {
            code: "input_required".into(),
            status: 400,
        }
    );
    assert!(matches!(audit, AuditEvent::InputRejected { .. }));

    // The whole prelude: the request is audited first, then the rejection, and the turn ends.
    let (records, ended) = turn_prelude(&turn_input("   "), 4_000);
    assert_eq!(records.len(), 2);
    assert!(matches!(records[0], AuditEvent::RequestReceived { .. }));
    assert!(matches!(
        &records[1],
        AuditEvent::InputRejected { code, .. } if code == "input_required"
    ));
    assert_eq!(
        ended,
        Some(AgentTurnOutcome::Error { code: "input_required".into(), status: 400 })
    );
}

#[test]
fn accepted_prompt_only_records_the_request() {
    let (records, ended) = turn_prelude(&turn_input("營收"), 4_000);
    assert_eq!(records.len(), 1);
    assert!(matches!(records[0], AuditEvent::RequestReceived { .. }));
    assert_eq!(ended, None);
    let (records, ended) = turn_prelude(&turn_input("營收營收"), 3);
    assert!(matches!(
        &records[1],
        AuditEvent::InputRejected { code, .. } if code == "input_too_long"
    ));
    assert_eq!(ended, Some(AgentTurnOutcome::Error { code: "input_too_long".into(), status: 400 }));
}

#[test]
fn memory_step_without_a_session_keeps_the_input() {
    let detector = InjectionDetector::new(1, Vec::new()).expect("no patterns");
    let mut input = turn_input("hi");
    input.history = vec![History { user_prompt: "u".into(), model_response: "a".into() }];
    let (out, audit) = apply_memory_context(input.clone(), true, None, 2_000, &detector);
    assert_eq!(out, input);
    assert!(audit.is_none());
    input.session_id = Some("s1".into());
    let (out, audit) = apply_memory_context(input.clone(), false, None, 2_000, &detector);
    assert_eq!(out, input);
    assert!(audit.is_none());
    let (out, audit) = apply_memory_context(input.clone(), true, None, 2_000, &detector);
    assert!(out.history.is_empty());
    assert_eq!(out.prompt, "hi");
    assert!(matches!(audit, Some(AuditEvent::MemoryContext { used_turn_count: 0, dropped_reason: None })));
}

#[test]
fn request_received_records_the_hash_and_length() {
    let mut input = turn_input("營收");
    input.option_id = Some("revenue.monthly".into());
    match request_received(&input) {
        AuditEvent::RequestReceived {
            input_hash,
            input_chars,
            option_id,
        } => {
            assert_eq!(input_hash.len(), 64);
            assert_eq!(input_chars, 2);
            assert_eq!(option_id.as_deref(), Some("revenue.monthly"));
        }
        other => panic!("unexpected {other:?}"),
    }
}

#[test]
fn memory_enabled_injects_context_and_clears_upstream_history() {
    let mut store = InMemorySessionStore::new(5);
    let scope = SessionMemoryScope {
        session_id: "s1".into(),
        actor_id: None,
    };
    store.append_turn(
        &scope,
        SessionMemoryTurn {
            turn_id: "prior".into(),
            user_summary: "上個月營收".into(),
            answer_summary: "100 元".into(),
            intent: Some("revenue".into()),
            metric: Some("revenue".into()),
            asset: None,
            time_range_label: None,
            option_id: None,
            created_at_ms: 1,
        },
    );
    let mut input = turn_input("營收 收入 這個月呢");
    input.session_id = Some("s1".into());
    input.history = vec![History {
        user_prompt: "client history".into(),
        model_response: "should not be sent".into(),
    }];

    let detector = InjectionDetector::new(1, vec!["(?i)system\\s+prompt".to_string()])
        .expect("pattern compiles");
    let memory = store.get(&scope).expect("memory exists");
    let (sent, audit) = apply_session_memory(input, Some(&memory), 2_000, &detector);

    assert!(sent.history.is_empty());
    assert!(sent.prompt.contains("Session memory"));
    assert!(sent.prompt.contains("上個月營收"));
    assert!(sent.prompt.ends_with("Current user input:\n營收 收入 這個月呢"));
    assert!(matches!(
        audit,
        AuditEvent::MemoryContext {
            used_turn_count: 1,
            dropped_reason: None
        }
    ));

    let remembered = memory_turn(&sent, &normalized("revenue", 9_000), "answer", 2);
    store.append_turn(&scope, remembered);
    let memory = store.get(&scope).expect("memory should remain");
    assert_eq!(
        memory
            .recent_turns
            .last()
            .map(|turn| turn.user_summary.as_str()),
        Some("營收 收入 這個月呢")
    );
}

#[test]
fn memory_store_contract_is_usable_through_the_trait() {
    fn through_trait<S: SessionMemoryStore>(store: &mut S) -> usize {
        let scope = SessionMemoryScope {
            session_id: "t".into(),
            actor_id: Some("alice".into()),
        };
        let turn = SessionMemoryTurn {
            turn_id: "1".into(),
            user_summary: "q".into(),
            answer_summary: "a".into(),
            intent: None,
            metric: None,
            asset: None,
            time_range_label: None,
            option_id: None,
            created_at_ms: 0,
        };
        SessionMemoryStore::append_turn(store, &scope, turn);
        let n = SessionMemoryStore::get(store, &scope)
            .map(|m| m.recent_turns.len())
            .unwrap_or(0);
        SessionMemoryStore::clear(store, &scope);
        assert!(SessionMemoryStore::get(store, &scope).is_none());
        SessionMemoryStore::append(
            store,
            "t",
            History {
                user_prompt: "q".into(),
                model_response: "a".into(),
            },
        )
        .expect("append succeeds");
        assert_eq!(SessionMemoryStore::load(store, "t").expect("load succeeds").len(), 1);
        assert!(SessionMemoryStore::load(store, "other").expect("load succeeds").is_empty());
        n
    }
    let mut store = InMemorySessionStore::new(3);
    assert_eq!(through_trait(&mut store), 1);
}

#[test]
fn sync_decision_matches_policy_for_clear_input() {
    assert_eq!(policy().decide(&normalized("revenue", 9_000)), AnswerDecision::Answer);
    assert!(matches!(
        start_turn(&AnswerDecision::Answer),
        TurnStart::Run { ref prefix } if prefix.is_empty()
    ));
}
