//! The runtime turn orchestrator's decisions: how a rejected or refused turn is answered, how
//! memory is folded into the prompt, and how each frame of the agent's stream moves the turn.
//! The caller performs the I/O (audit writes, memory appends, the agent stream) that each
//! decision names.

use vstd::prelude::*;

use crate::llm_connector::LlmEvent;
use crate::runtime::audit::{hash_identifier, AuditEvent};
use crate::runtime::error::RuntimeError;
use crate::runtime::guardrails::answer_policy::AnswerDecision;
use crate::runtime::guardrails::injection::InjectionDetector;
use crate::runtime::memory::context::{build_session_memory_context, kept_lines,
    memory_context_text};
use crate::runtime::memory::store::{SessionMemory, SessionMemoryTurn};
use crate::runtime::schema::{AgentTurnFrame, AgentTurnInput, IntentSource, NormalizedInput};
use crate::search::{first_where, lemma_first_where_none, lemma_first_where_some};
use crate::text::{chars_vec, concat2, push_str, str_eq, string_from_range, to_owned_string};

verus! {

/// The runtime orchestrator marker.
#[derive(Debug, Default)]
pub struct RuntimeOrchestrator;

/// Outcome of one runtime-owned turn.
#[derive(Debug, Clone, PartialEq, Eq)]
pub enum AgentTurnOutcome {
    /// Final answer.
    Final { response: String, intent: String },
    /// Semantic refusal.
    Refused { reason: String, copy: String },
    /// Request or upstream error, with an HTTP-ish status.
    Error { code: String, status: u16 },
    /// Stream aborted after partial output.
    Aborted { response: String },
}

/// The stable code of a rejected input.
pub open spec fn error_code(e: RuntimeError) -> Seq<char> {
    match e {
        RuntimeError::InputRequired => "input_required"@,
        RuntimeError::InputTooLong(_) => "input_too_long"@,
        _ => "runtime_error"@,
    }
}

/// The stable code of a runtime error.
pub fn runtime_error_code(err: &RuntimeError) -> (r: &'static str)
    ensures
        r@ == error_code(*err),
{
    match err {
        RuntimeError::InputRequired => "input_required",
        RuntimeError::InputTooLong(_) => "input_too_long",
        _ => "runtime_error",
    }
}

/// The user-facing copy of a refusal.
pub open spec fn refusal_text(reason: Seq<char>) -> Seq<char> {
    if reason == "prompt_injection"@ {
        "這個問題包含我不能遵循的指令，因此無法處理。"@
    } else {
        "這個問題超出我目前能回答的範圍。"@
    }
}

/// The user-facing copy of a refusal with this reason.
pub fn refusal_copy(reason: &str) -> (r: String)
    ensures
        r@ == refusal_text(reason@),
{
    if str_eq(reason, "prompt_injection") {
        to_owned_string("這個問題包含我不能遵循的指令，因此無法處理。")
    } else {
        to_owned_string("這個問題超出我目前能回答的範圍。")
    }
}

/// The disclaimer prefixed to a gray-confidence answer.
pub open spec fn disclaimer_text(reason: Seq<char>) -> Seq<char> {
    if reason == "low_confidence"@ {
        "（以下為初步判讀，可能需要進一步確認）\n\n"@
    } else {
        "（以下回答可能需要進一步確認）\n\n"@
    }
}

/// The disclaimer prefixed to an answer for this reason.
pub fn disclaimer_copy(reason: &str) -> (r: String)
    ensures
        r@ == disclaimer_text(reason@),
{
    if str_eq(reason, "low_confidence") {
        to_owned_string("（以下為初步判讀，可能需要進一步確認）\n\n")
    } else {
        to_owned_string("（以下回答可能需要進一步確認）\n\n")
    }
}

/// The marker between the memory context and the current input in an augmented prompt.
pub open spec fn current_input_marker() -> Seq<char> {
    "Current user input:\n"@
}

/// `i` is the start of the last occurrence of `m` in `s`.
pub open spec fn is_last_occurrence(s: Seq<char>, m: Seq<char>, i: int) -> bool {
    &&& 0 <= i && i + m.len() <= s.len()
    &&& s.subrange(i, i + m.len()) == m
    &&& forall|j: int| i < j && j + m.len() <= s.len() ==> #[trigger] s.subrange(j, j + m.len()) != m
}

/// The user's own words in a possibly memory-augmented prompt: the text after the last
/// `Current user input:` line, or the whole prompt when there is none.
pub open spec fn user_part(s: Seq<char>) -> Seq<char> {
    let m = current_input_marker();
    if exists|i: int| is_last_occurrence(s, m, i) {
        let i = choose|i: int| is_last_occurrence(s, m, i);
        s.skip(i + m.len())
    } else {
        s
    }
}

/// Whether `m` occurs in `cs` at `i`.
fn occurs_at_exec(cs: &Vec<char>, m: &Vec<char>, i: usize) -> (r: bool)
    requires
        i + m.len() <= cs.len(),
    ensures
        r == (cs@.subrange(i as int, i as int + m.len()) == m@),
{
    let mut k: usize = 0;
    while k < m.len()
        invariant
            k <= m.len(),
            i + m.len() <= cs.len(),
            forall|j: int| 0 <= j < k ==> cs@[i + j] == m@[j],
        decreases m.len() - k,
    {
        if cs[i + k] != m[k] {
            assert(cs@.subrange(i as int, i as int + m.len())[k as int] != m@[k as int]);
            return false;
        }
        k += 1;
    }
    assert(cs@.subrange(i as int, i as int + m.len()) =~= m@);
    true
}

/// The user-side summary stored for a turn (see [`user_part`]).
pub fn memory_user_summary(prompt: &str) -> (r: String)
    ensures
        r@ == user_part(prompt@),
{
    let cs = chars_vec(prompt);
    let marker = chars_vec("Current user input:\n");
    proof {
        reveal_strlit("Current user input:\n");
    }
    let ghost s = prompt@;
    let ghost m = current_input_marker();
    assert(m.len() == 20);
    if marker.len() > cs.len() {
        proof {
            assert forall|i: int| !is_last_occurrence(s, m, i) by {}
        }
        return to_owned_string(prompt);
    }
    let mut i: usize = cs.len() - marker.len() + 1;
    while i > 0
        invariant
            cs@ == s,
            s == prompt@,
            m == current_input_marker(),
            marker@ == m,
            marker.len() <= cs.len(),
            i <= cs.len() - marker.len() + 1,
            forall|j: int|
                i <= j && j + m.len() <= s.len() ==> #[trigger] s.subrange(j, j + m.len()) != m,
        decreases i,
    {
        if occurs_at_exec(&cs, &marker, i - 1) {
            let start = i - 1;
            proof {
                assert(is_last_occurrence(s, m, start as int));
                lemma_user_part_at(s, m, start as int);
            }
            let r = string_from_range(&cs, start + marker.len(), cs.len());
            assert(r@ =~= s.skip(start + m.len()));
            return r;
        }
        i -= 1;
    }
    proof {
        assert forall|i: int| !is_last_occurrence(s, m, i) by {}
    }
    to_owned_string(prompt)
}

/// At the last occurrence of the marker, the user's part is what follows it.
proof fn lemma_user_part_at(s: Seq<char>, m: Seq<char>, i: int)
    requires
        m == current_input_marker(),
        is_last_occurrence(s, m, i),
    ensures
        user_part(s) == s.skip(i + m.len()),
{
    let c = choose|c: int| is_last_occurrence(s, m, c);
    assert(is_last_occurrence(s, m, c));
    if c < i {
        assert(s.subrange(i, i + m.len()) == m);
    } else if c > i {
        assert(s.subrange(c, c + m.len()) == m);
    }
}

/// The prompt an agent receives when session memory is in play.
pub open spec fn augmented_prompt(context: Seq<char>, prompt: Seq<char>) -> Seq<char> {
    context + "\n\nCurrent user input:\n"@ + prompt
}

/// The marker's first character occurs nowhere else in it.
proof fn lemma_marker_starts_once()
    ensures
        current_input_marker().len() == 20,
        forall|i: int| 1 <= i < 20 ==> #[trigger] current_input_marker()[i] != current_input_marker()[0],
{
    reveal_strlit("Current user input:\n");
}

/// An augmented prompt is the context, two newlines, the marker, then the prompt.
proof fn lemma_augmented_layout(context: Seq<char>, prompt: Seq<char>)
    ensures
        augmented_prompt(context, prompt).len() == context.len() + 22 + prompt.len(),
        forall|i: int|
            0 <= i < 20 ==> #[trigger] augmented_prompt(context, prompt)[context.len() + 2 + i]
                == current_input_marker()[i],
        forall|i: int|
            0 <= i < prompt.len() ==> #[trigger] augmented_prompt(context, prompt)[context.len() + 22
                + i] == prompt[i],
{
    reveal_strlit("Current user input:\n");
    reveal_strlit("\n\nCurrent user input:\n");
    let sep = "\n\nCurrent user input:\n"@;
    assert(sep.len() == 22);
    assert forall|i: int| 0 <= i < 20 implies sep[2 + i] == current_input_marker()[i] by {}
}

/// What memory records of an augmented turn is the user's own words, never the injected
/// context: splitting the augmented prompt gives back the prompt, provided the prompt itself holds
/// no `Current user input:` line.
pub proof fn law_memory_records_the_users_words(context: Seq<char>, prompt: Seq<char>)
    requires
        forall|j: int|
            0 <= j && j + current_input_marker().len() <= prompt.len() ==> #[trigger] prompt.subrange(
                j,
                j + current_input_marker().len(),
            ) != current_input_marker(),
    ensures
        user_part(augmented_prompt(context, prompt)) == prompt,
{
    let m = current_input_marker();
    let s = augmented_prompt(context, prompt);
    let k: int = context.len() as int + 2;
    lemma_marker_starts_once();
    lemma_augmented_layout(context, prompt);
    assert forall|i: int| 0 <= i < 20 implies s.subrange(k, k + 20)[i] == m[i] by {
        assert(s[context.len() + 2 + i] == m[i]);
    }
    assert(s.subrange(k, k + 20) =~= m);
    assert forall|j: int| k < j && j + m.len() <= s.len() implies #[trigger] s.subrange(j, j + m.len()) != m by {
        if j < k + 20 {
            assert(s.subrange(j, j + m.len())[0] == s[j]);
            assert(s[context.len() + 2 + (j - k)] == m[j - k]);
        } else {
            let q = j - k - 20;
            assert(prompt.subrange(q, q + m.len()) != m);
            if s.subrange(j, j + m.len()) == m {
                assert forall|t: int| 0 <= t < m.len() implies prompt.subrange(q, q + m.len())[t] == m[t] by {
                    assert(s.subrange(j, j + m.len())[t] == s[context.len() + 22 + (q + t)]);
                }
                assert(prompt.subrange(q, q + m.len()) =~= m);
            }
        }
    }
    assert(is_last_occurrence(s, m, k));
    lemma_user_part_at(s, m, k);
    assert(s.skip(k + 20) =~= prompt);
}

/// Folds a memory context into the prompt.
pub fn memory_prompt(context: &str, prompt: &str) -> (r: String)
    ensures
        r@ == augmented_prompt(context@, prompt@),
{
    let mut s = concat2(context, "\n\nCurrent user input:\n");
    push_str(&mut s, prompt);
    s
}

/// Maps one connector event onto the runtime's turn frame of the same meaning.
pub fn llm_event_to_turn_frame(event: LlmEvent) -> (r: AgentTurnFrame)
    ensures
        match event {
            LlmEvent::Token(d) => r == AgentTurnFrame::Token { data: d },
            LlmEvent::Clear => r == AgentTurnFrame::Clear,
            LlmEvent::ToolCalled { name, args_hash } => r == AgentTurnFrame::ToolCalled {
                name,
                args_hash,
            },
            LlmEvent::ToolResult { name, bytes, ok } => r == AgentTurnFrame::ToolResult {
                name,
                bytes,
                ok,
            },
            LlmEvent::Done => r == AgentTurnFrame::Done,
            LlmEvent::Error(d) => r == AgentTurnFrame::Error { data: d },
        },
{
    match event {
        LlmEvent::Token(data) => AgentTurnFrame::Token { data },
        LlmEvent::Clear => AgentTurnFrame::Clear,
        LlmEvent::ToolCalled { name, args_hash } => AgentTurnFrame::ToolCalled { name, args_hash },
        LlmEvent::ToolResult { name, bytes, ok } => AgentTurnFrame::ToolResult { name, bytes, ok },
        LlmEvent::Done => AgentTurnFrame::Done,
        LlmEvent::Error(data) => AgentTurnFrame::Error { data },
    }
}

/// The `{:?}` name of an intent source.
pub open spec fn source_name(s: IntentSource) -> Seq<char> {
    match s {
        IntentSource::OptionPath => "OptionPath"@,
        IntentSource::RuleLexicon => "RuleLexicon"@,
        IntentSource::TextOverride => "TextOverride"@,
        IntentSource::Unknown => "Unknown"@,
    }
}

/// The name an audit record gives an intent source.
pub fn intent_source_name(s: IntentSource) -> (r: &'static str)
    ensures
        r@ == source_name(s),
{
    match s {
        IntentSource::OptionPath => "OptionPath",
        IntentSource::RuleLexicon => "RuleLexicon",
        IntentSource::TextOverride => "TextOverride",
        IntentSource::Unknown => "Unknown",
    }
}

/// How a turn whose input failed validation is answered: the rejection to audit and the error
/// outcome (status 400).
pub fn rejected_turn(err: &RuntimeError) -> (r: (AuditEvent, AgentTurnOutcome))
    ensures
        r.0 matches AuditEvent::InputRejected { code, reason } && code@ == error_code(*err)
            && reason@ == crate::runtime::error::error_message(*err),
        r.1 matches AgentTurnOutcome::Error { code, status } && code@ == error_code(*err) && status
            == 400,
{
    let code = to_owned_string(runtime_error_code(err));
    let audit = AuditEvent::InputRejected { code, reason: err.message() };
    let outcome = AgentTurnOutcome::Error {
        code: to_owned_string(runtime_error_code(err)),
        status: 400,
    };
    (audit, outcome)
}

/// Whether the LLM normalizer gets a chance at the input: only below the normal-answer
/// confidence, and only when one is configured.
pub fn wants_llm_normalizer(confidence: u32, answer_normal: u32, configured: bool) -> (r: bool)
    ensures
        r == (configured && confidence < answer_normal),
{
    configured && confidence < answer_normal
}

/// The audit record of the normalized input: intent, confidence, source name and warning codes.
pub fn normalized_event(n: &NormalizedInput) -> (r: AuditEvent)
    ensures
        r matches AuditEvent::InputNormalized { intent, confidence, intent_source, warnings }
            && intent@ == n.intent@ && confidence == n.confidence && (match n.intent_source {
            Some(s) => intent_source matches Some(t) && t@ == source_name(s),
            None => intent_source is None,
        }) && warnings@.len() == n.warnings@.len() && forall|i: int|
            0 <= i < warnings@.len() ==> #[trigger] warnings@[i]@ == n.warnings@[i].code@,
{
    let mut codes: Vec<String> = Vec::new();
    let mut i: usize = 0;
    while i < n.warnings.len()
        invariant
            i <= n.warnings.len(),
            codes@.len() == i,
            forall|j: int| 0 <= j < i ==> #[trigger] codes@[j]@ == n.warnings@[j].code@,
        decreases n.warnings.len() - i,
    {
        codes.push(n.warnings[i].code.clone());
        i += 1;
    }
    let source = match n.intent_source {
        Some(s) => Some(to_owned_string(intent_source_name(s))),
        None => None,
    };
    AuditEvent::InputNormalized {
        intent: n.intent.clone(),
        confidence: n.confidence,
        intent_source: source,
        warnings: codes,
    }
}

/// What the answer policy's decision means for the turn before the agent runs.
pub enum TurnStart {
    /// Refuse: the reason and the copy the user sees; the agent is not called.
    Refuse { reason: String, copy: String },
    /// Run the agent, with the response buffer starting from `prefix`.
    Run { prefix: String },
}

/// Turns the answer policy's decision into the turn's start: refusals carry their copy, a
/// disclaimer prefixes the response, a plain answer starts empty.
pub fn start_turn(decision: &AnswerDecision) -> (r: TurnStart)
    ensures
        match *decision {
            AnswerDecision::Refuse(reason) => r matches TurnStart::Refuse { reason: rr, copy }
                && rr@ == reason@ && copy@ == refusal_text(reason@),
            AnswerDecision::Disclaimer(d) => r matches TurnStart::Run { prefix } && prefix@
                == disclaimer_text(d@),
            AnswerDecision::Answer => r matches TurnStart::Run { prefix } && prefix@.len() == 0,
        },
{
    match decision {
        AnswerDecision::Refuse(reason) => TurnStart::Refuse {
            reason: reason.clone(),
            copy: refusal_copy(reason.as_str()),
        },
        AnswerDecision::Disclaimer(d) => TurnStart::Run { prefix: disclaimer_copy(d.as_str()) },
        AnswerDecision::Answer => TurnStart::Run { prefix: String::new() },
    }
}

/// The memory turn recorded for a finished turn: the user's own words, the response, and the
/// normalized intent and slots.
pub fn memory_turn(
    input: &AgentTurnInput,
    normalized: &NormalizedInput,
    response: &str,
    created_at_ms: u64,
) -> (r: SessionMemoryTurn)
    ensures
        r.turn_id@ == input.request_id@,
        r.user_summary@ == user_part(input.prompt@),
        r.answer_summary@ == response@,
        r.intent matches Some(i) && i@ == normalized.intent@,
        r.metric == normalized.slots.metric,
        r.asset == normalized.slots.asset,
        r.time_range_label == normalized.slots.time_range,
        r.option_id == input.option_id,
        r.created_at_ms == created_at_ms,
{
    SessionMemoryTurn {
        turn_id: input.request_id.clone(),
        user_summary: memory_user_summary(input.prompt.as_str()),
        answer_summary: to_owned_string(response),
        intent: Some(normalized.intent.clone()),
        metric: crate::runtime::memory::store::clone_opt(&normalized.slots.metric),
        asset: crate::runtime::memory::store::clone_opt(&normalized.slots.asset),
        time_range_label: crate::runtime::memory::store::clone_opt(&normalized.slots.time_range),
        option_id: crate::runtime::memory::store::clone_opt(&input.option_id),
        created_at_ms,
    }
}

/// What one frame of the agent's stream asks of the caller.
pub enum StreamStep {
    /// Keep reading, after writing `record` when present.
    Continue { record: Option<AuditEvent> },
    /// Stop: append the memory turn when `remember`, write `audit`, and return `outcome`.
    Finish { remember: bool, audit: AuditEvent, outcome: AgentTurnOutcome },
}

/// The audit record of a completed or aborted response.
pub open spec fn completed_event(
    e: AuditEvent,
    response: Seq<char>,
    elapsed_ms: u64,
    status: Seq<char>,
) -> bool {
    e matches AuditEvent::ResponseCompleted { response_hash, response_chars, duration_ms, status: st }
        && response_hash@ == crate::runtime::audit::sha256_hex(response) && response_chars
        == response.len() && duration_ms == elapsed_ms && st@ == status
}

/// The failure audit record of a turn that produced nothing.
pub open spec fn failed_event(e: AuditEvent, data: String, elapsed_ms: u64) -> bool {
    e matches AuditEvent::ResponseFailed { error_code, duration_ms } && error_code == data
        && duration_ms == elapsed_ms
}

/// A final answer with this response and intent.
pub open spec fn final_outcome(o: AgentTurnOutcome, response: Seq<char>, intent: Seq<char>) -> bool {
    o matches AgentTurnOutcome::Final { response: fr, intent: fi } && fr@ == response && fi@ == intent
}

/// An aborted turn with this partial response.
pub open spec fn aborted_outcome(o: AgentTurnOutcome, response: Seq<char>) -> bool {
    o matches AgentTurnOutcome::Aborted { response: fr } && fr@ == response
}

/// The upstream failure outcome (502).
pub open spec fn upstream_failure(o: AgentTurnOutcome) -> bool {
    o matches AgentTurnOutcome::Error { code, status } && code@ == "upstream_error"@ && status == 502
}

/// What a frame does, given the response before it (`before`) and after it (`after`).
pub open spec fn frame_effect(
    frame: AgentTurnFrame,
    before: Seq<char>,
    after: Seq<char>,
    intent: Seq<char>,
    elapsed_ms: u64,
    r: StreamStep,
) -> bool {
    match frame {
        AgentTurnFrame::Token { data } => after == before + data@ && r == StreamStep::Continue {
            record: None,
        },
        AgentTurnFrame::Clear => after.len() == 0 && r == StreamStep::Continue {
            record: Some(AuditEvent::AnswerCleared),
        },
        AgentTurnFrame::ToolCalled { name, args_hash } => after == before && r
            == StreamStep::Continue { record: Some(AuditEvent::ToolCalled { tool: name, args_hash }) },
        AgentTurnFrame::ToolResult { name, bytes, ok } => after == before && r
            == StreamStep::Continue { record: Some(AuditEvent::ToolResult { tool: name, bytes, ok }) },
        AgentTurnFrame::Done => {
            &&& after == before
            &&& r is Finish
            &&& r->remember
            &&& completed_event(r->audit, before, elapsed_ms, "completed"@)
            &&& final_outcome(r->outcome, before, intent)
        },
        AgentTurnFrame::Error { data } => {
            &&& after == before
            &&& r is Finish
            &&& before.len() == 0 ==> {
                &&& !r->remember
                &&& failed_event(r->audit, data, elapsed_ms)
                &&& upstream_failure(r->outcome)
            }
            &&& before.len() > 0 ==> {
                &&& r->remember
                &&& completed_event(r->audit, before, elapsed_ms, "aborted"@)
                &&& aborted_outcome(r->outcome, before)
            }
        },
    }
}

/// Advances the turn by one frame: tokens grow the response, `Clear` empties it, tool frames are
/// audited, `Done` finishes the answer, and an error fails the turn when nothing was said yet
/// (502) or aborts it with the partial response otherwise.
pub fn on_frame(
    response: &mut String,
    frame: AgentTurnFrame,
    intent: &str,
    elapsed_ms: u64,
) -> (r: StreamStep)
    ensures
        frame_effect(frame, old(response)@, final(response)@, intent@, elapsed_ms, r),
{
    match frame {
        AgentTurnFrame::Token { data } => {
            push_str(response, data.as_str());
            StreamStep::Continue { record: None }
        },
        AgentTurnFrame::Clear => {
            *response = String::new();
            StreamStep::Continue { record: Some(AuditEvent::AnswerCleared) }
        },
        AgentTurnFrame::ToolCalled { name, args_hash } => StreamStep::Continue {
            record: Some(AuditEvent::ToolCalled { tool: name, args_hash }),
        },
        AgentTurnFrame::ToolResult { name, bytes, ok } => StreamStep::Continue {
            record: Some(AuditEvent::ToolResult { tool: name, bytes, ok }),
        },
        AgentTurnFrame::Done => {
            let audit = completed(response.as_str(), elapsed_ms, "completed");
            StreamStep::Finish {
                remember: true,
                audit,
                outcome: AgentTurnOutcome::Final {
                    response: response.clone(),
                    intent: to_owned_string(intent),
                },
            }
        },
        AgentTurnFrame::Error { data } => {
            if chars_vec(response.as_str()).len() == 0 {
                StreamStep::Finish {
                    remember: false,
                    audit: AuditEvent::ResponseFailed { error_code: data, duration_ms: elapsed_ms },
                    outcome: AgentTurnOutcome::Error {
                        code: to_owned_string("upstream_error"),
                        status: 502,
                    },
                }
            } else {
                let audit = completed(response.as_str(), elapsed_ms, "aborted");
                StreamStep::Finish {
                    remember: true,
                    audit,
                    outcome: AgentTurnOutcome::Aborted { response: response.clone() },
                }
            }
        },
    }
}

/// The response after one frame: tokens append, `Clear` empties it, other frames leave it.
pub open spec fn respond(before: Seq<char>, frame: AgentTurnFrame) -> Seq<char> {
    match frame {
        AgentTurnFrame::Token { data } => before + data@,
        AgentTurnFrame::Clear => Seq::empty(),
        _ => before,
    }
}

/// The response after reading `frames`, starting from `start`.
pub open spec fn response_after(start: Seq<char>, frames: Seq<AgentTurnFrame>) -> Seq<char>
    decreases frames.len(),
{
    if frames.len() == 0 {
        start
    } else {
        respond(response_after(start, frames.drop_last()), frames.last())
    }
}

/// `Done` and `Error` end the stream.
pub open spec fn is_terminal(frame: AgentTurnFrame) -> bool {
    frame is Done || frame is Error
}

/// Frame `i` ends the stream.
pub open spec fn terminal_at(frames: Seq<AgentTurnFrame>) -> spec_fn(int) -> bool {
    |i: int| is_terminal(frames[i])
}

/// The audit record a non-terminal frame asks for.
pub open spec fn frame_record(frame: AgentTurnFrame) -> Option<AuditEvent> {
    match frame {
        AgentTurnFrame::Clear => Some(AuditEvent::AnswerCleared),
        AgentTurnFrame::ToolCalled { name, args_hash } => Some(
            AuditEvent::ToolCalled { tool: name, args_hash },
        ),
        AgentTurnFrame::ToolResult { name, bytes, ok } => Some(
            AuditEvent::ToolResult { tool: name, bytes, ok },
        ),
        _ => None,
    }
}

/// The audit records a run of non-terminal frames asks for, in order.
pub open spec fn frame_records(frames: Seq<AgentTurnFrame>) -> Seq<AuditEvent>
    decreases frames.len(),
{
    if frames.len() == 0 {
        Seq::empty()
    } else {
        let r = frame_records(frames.drop_last());
        match frame_record(frames.last()) {
            Some(e) => r.push(e),
            None => r,
        }
    }
}

/// What reading an agent's stream to its end decided: the audit records written along the way,
/// the closing step (memory and final audit) when a terminal frame came, the outcome, and the
/// response.
pub struct TurnRun {
    pub records: Vec<AuditEvent>,
    pub closing: Option<(bool, AuditEvent)>,
    pub outcome: AgentTurnOutcome,
    pub response: String,
}

/// A copy of a frame.
fn copy_frame(f: &AgentTurnFrame) -> (r: AgentTurnFrame)
    ensures
        r == *f,
{
    match f {
        AgentTurnFrame::Token { data } => AgentTurnFrame::Token { data: data.clone() },
        AgentTurnFrame::Clear => AgentTurnFrame::Clear,
        AgentTurnFrame::ToolCalled { name, args_hash } => AgentTurnFrame::ToolCalled {
            name: name.clone(),
            args_hash: args_hash.clone(),
        },
        AgentTurnFrame::ToolResult { name, bytes, ok } => AgentTurnFrame::ToolResult {
            name: name.clone(),
            bytes: *bytes,
            ok: *ok,
        },
        AgentTurnFrame::Done => AgentTurnFrame::Done,
        AgentTurnFrame::Error { data } => AgentTurnFrame::Error { data: data.clone() },
    }
}

/// Reads an agent's frames in order from a response starting at `prefix` (empty, or the
/// disclaimer): up to the first terminal frame every frame updates the response and asks for
/// its audit record; the terminal frame closes the turn as [`on_frame`] decides; a stream without
/// one ends aborted with what was said.
pub fn run_frames(prefix: String, frames: &Vec<AgentTurnFrame>, intent: &str, elapsed_ms: u64) -> (r:
    TurnRun)
    ensures
        match first_where(frames@.len() as int, terminal_at(frames@)) {
            Some(t) => {
                let before = response_after(prefix@, frames@.take(t));
                &&& r.records@ == frame_records(frames@.take(t))
                &&& r.response@ == before
                &&& r.closing matches Some((remember, audit))
                &&& frame_effect(
                    frames@[t],
                    before,
                    before,
                    intent@,
                    elapsed_ms,
                    StreamStep::Finish { remember, audit, outcome: r.outcome },
                )
            },
            None => {
                &&& r.records@ == frame_records(frames@)
                &&& r.response@ == response_after(prefix@, frames@)
                &&& r.closing is None
                &&& r.outcome matches AgentTurnOutcome::Aborted { response: fr }
                &&& fr@ == response_after(prefix@, frames@)
            },
        },
{
    let ghost fs = frames@;
    let mut response = prefix;
    let mut records: Vec<AuditEvent> = Vec::new();
    let mut i: usize = 0;
    while i < frames.len()
        invariant
            i <= frames.len(),
            fs == frames@,
            forall|j: int| 0 <= j < i ==> !#[trigger] terminal_at(fs)(j),
            response@ == response_after(prefix@, fs.take(i as int)),
            records@ == frame_records(fs.take(i as int)),
        decreases frames.len() - i,
    {
        proof {
            assert(fs.take(i as int + 1).drop_last() =~= fs.take(i as int));
            assert(fs.take(i as int + 1).last() == fs[i as int]);
        }
        let frame = copy_frame(&frames[i]);
        let ghost before = response@;
        let step = on_frame(&mut response, frame, intent, elapsed_ms);
        match step {
            StreamStep::Continue { record } => {
                proof {
                    assert(!terminal_at(fs)(i as int));
                }
                match record {
                    Some(e) => {
                        let ghost rs = records@;
                        records.push(e);
                        assert(records@ =~= rs.push(e));
                    },
                    None => {},
                }
            },
            StreamStep::Finish { remember, audit, outcome } => {
                proof {
                    assert(terminal_at(fs)(i as int));
                    lemma_first_where_some(fs.len() as int, terminal_at(fs), i as int);
                }
                return TurnRun { records, closing: Some((remember, audit)), outcome, response };
            },
        }
        i += 1;
    }
    proof {
        lemma_first_where_none(fs.len() as int, terminal_at(fs));
        assert(fs.take(fs.len() as int) =~= fs);
    }
    let outcome = on_stream_end(response.as_str());
    TurnRun { records, closing: None, outcome, response }
}

/// A response restarts at each `Clear`: what was said before it — the disclaimer or a tool
/// turn's preamble — never reaches the answer.
pub proof fn law_clear_restarts_the_response(
    start: Seq<char>,
    pre: Seq<AgentTurnFrame>,
    post: Seq<AgentTurnFrame>,
)
    ensures
        response_after(start, pre.push(AgentTurnFrame::Clear) + post) == response_after(
            Seq::empty(),
            post,
        ),
    decreases post.len(),
{
    if post.len() == 0 {
        assert(pre.push(AgentTurnFrame::Clear) + post =~= pre.push(AgentTurnFrame::Clear));
        assert(pre.push(AgentTurnFrame::Clear).drop_last() =~= pre);
    } else {
        law_clear_restarts_the_response(start, pre, post.drop_last());
        assert((pre.push(AgentTurnFrame::Clear) + post).drop_last() =~= pre.push(AgentTurnFrame::Clear)
            + post.drop_last());
        assert((pre.push(AgentTurnFrame::Clear) + post).last() == post.last());
    }
}

/// The audit record of a received request: the prompt's hash and length, and the option id.
pub fn request_received(input: &AgentTurnInput) -> (r: AuditEvent)
    ensures
        r matches AuditEvent::RequestReceived { input_hash, input_chars, option_id } && input_hash@
            == crate::runtime::audit::sha256_hex(input.prompt@) && input_chars == input.prompt@.len()
            && option_id == input.option_id,
{
    AuditEvent::RequestReceived {
        input_hash: hash_identifier(input.prompt.as_str()),
        input_chars: chars_vec(input.prompt.as_str()).len(),
        option_id: crate::runtime::memory::store::clone_opt(&input.option_id),
    }
}

/// Why a prompt is rejected before any work, if it is: blank, then over `max` characters.
pub open spec fn input_error(prompt: Seq<char>, max: usize) -> Option<RuntimeError> {
    if crate::text::all_ws(prompt) {
        Some(RuntimeError::InputRequired)
    } else if prompt.len() > max {
        Some(RuntimeError::InputTooLong(prompt.len() as usize))
    } else {
        None
    }
}

/// The turn's prelude: the request is audited first; a rejected prompt is then audited as
/// rejected and ends the turn with a 400 error (the agent is never called); otherwise the turn
/// goes on (`None`).
pub fn turn_prelude(input: &AgentTurnInput, max_prompt_chars: usize) -> (r: (
    Vec<AuditEvent>,
    Option<AgentTurnOutcome>,
))
    ensures
        r.0@.len() >= 1,
        r.0@[0] matches AuditEvent::RequestReceived { input_hash, input_chars, option_id }
            && input_hash@ == crate::runtime::audit::sha256_hex(input.prompt@) && input_chars
            == input.prompt@.len() && option_id == input.option_id,
        match input_error(input.prompt@, max_prompt_chars) {
            Some(e) => {
                &&& r.0@.len() == 2
                &&& r.0@[1] matches AuditEvent::InputRejected { code, reason } && code@
                    == error_code(e) && reason@ == crate::runtime::error::error_message(e)
                &&& r.1 matches Some(AgentTurnOutcome::Error { code, status }) && code@
                    == error_code(e) && status == 400
            },
            None => r.0@.len() == 1 && r.1 is None,
        },
{
    let mut records: Vec<AuditEvent> = Vec::new();
    records.push(request_received(input));
    match crate::runtime::guardrails::input_guard::validate_prompt(
        input.prompt.as_str(),
        max_prompt_chars,
    ) {
        Ok(()) => (records, None),
        Err(err) => {
            let (rejected, outcome) = rejected_turn(&err);
            records.push(rejected);
            (records, Some(outcome))
        },
    }
}

/// A refused turn: the refusal and its completion are audited, the user sees the refusal copy,
/// and the agent is never called.
pub fn refuse_turn(reason: &str, elapsed_ms: u64) -> (r: (AuditEvent, AuditEvent, AgentTurnOutcome))
    ensures
        r.0 matches AuditEvent::Refused { reason: rr } && rr@ == reason@,
        completed_event(r.1, refusal_text(reason@), elapsed_ms, "refused"@),
        r.2 matches AgentTurnOutcome::Refused { reason: rr, copy } && rr@ == reason@ && copy@
            == refusal_text(reason@),
{
    let copy = refusal_copy(reason);
    let done = completed(copy.as_str(), elapsed_ms, "refused");
    (
        AuditEvent::Refused { reason: to_owned_string(reason) },
        done,
        AgentTurnOutcome::Refused { reason: to_owned_string(reason), copy },
    )
}

/// The completion audit record of a response.
fn completed(response: &str, elapsed_ms: u64, status: &str) -> (r: AuditEvent)
    ensures
        completed_event(r, response@, elapsed_ms, status@),
{
    AuditEvent::ResponseCompleted {
        response_hash: hash_identifier(response),
        response_chars: chars_vec(response).len(),
        duration_ms: elapsed_ms,
        status: to_owned_string(status),
    }
}

/// The outcome when the agent's stream ends without a terminal frame: aborted with whatever
/// response accumulated.
pub fn on_stream_end(response: &str) -> (r: AgentTurnOutcome)
    ensures
        r matches AgentTurnOutcome::Aborted { response: fr } && fr@ == response@,
{
    AgentTurnOutcome::Aborted { response: to_owned_string(response) }
}


/// The record of a memory context dropped for exceeding its character budget.
pub open spec fn budget_exhausted_event(e: AuditEvent) -> bool {
    e matches AuditEvent::MemoryContext { used_turn_count, dropped_reason } && used_turn_count == 0
        && dropped_reason is Some && dropped_reason->0@ == "budget_exhausted"@
}

/// `out` and `event` are what folding `memory` into `input` gives (see
/// [`apply_session_memory`]).
pub open spec fn session_memory_applied(
    input: AgentTurnInput,
    memory: Option<&SessionMemory>,
    max_chars: usize,
    detector: InjectionDetector,
    out: AgentTurnInput,
    event: AuditEvent,
) -> bool {
    &&& (out.request_id == input.request_id)
    &&& (out.raw_input == input.raw_input)
    &&& (out.session_id == input.session_id)
    &&& (out.option_id == input.option_id)
    &&& (out.history@.len() == 0)
    &&& (match memory {
            None => out.prompt == input.prompt && event == AuditEvent::MemoryContext {
                used_turn_count: 0,
                dropped_reason: None,
            },
            Some(m) => {
                let ctx = memory_context_text(
                    kept_lines(
                        m.recent_turns@,
                        Seq::new(m.recent_turns@.len(), |i: int| true),
                        detector,
                    ),
                    max_chars as nat,
                );
                match ctx {
                    Some(c) => out.prompt@ == augmented_prompt(c, input.prompt@) && event
                        == AuditEvent::MemoryContext {
                        used_turn_count: m.recent_turns@.len() as usize,
                        dropped_reason: None,
                    },
                    None => out.prompt == input.prompt && budget_exhausted_event(event),
                }
            },
        })
}

/// Folds server-side session memory into a turn's input, for a turn with a session id and a
/// memory store: no stored memory or an exhausted budget leaves the prompt as it is; otherwise the
/// sanitized context precedes the current input. Either way the client history is dropped, and the
/// returned record says how much memory was used.
pub fn apply_session_memory(
    input: AgentTurnInput,
    memory: Option<&SessionMemory>,
    max_chars: usize,
    detector: &InjectionDetector,
) -> (r: (AgentTurnInput, AuditEvent))
    ensures
        session_memory_applied(input, memory, max_chars, *detector, r.0, r.1),
{
    let mut input = input;
    input.history = Vec::new();
    match memory {
        None => (input, AuditEvent::MemoryContext { used_turn_count: 0, dropped_reason: None }),
        Some(m) => match build_session_memory_context(m, max_chars, detector) {
            Some(context) => {
                let prompt = memory_prompt(context.as_str(), input.prompt.as_str());
                input.prompt = prompt;
                (
                    input,
                    AuditEvent::MemoryContext {
                        used_turn_count: m.recent_turns.len(),
                        dropped_reason: None,
                    },
                )
            },
            None => (
                input,
                AuditEvent::MemoryContext {
                    used_turn_count: 0,
                    dropped_reason: Some(to_owned_string("budget_exhausted")),
                },
            ),
        },
    }
}


/// The memory step of a turn: without a session id, or without a memory store, the input passes
/// on unchanged (client history kept) and nothing is audited; otherwise the stored memory, if
/// any, is folded in by [`apply_session_memory`] and its record audited.
pub fn apply_memory_context(
    input: AgentTurnInput,
    store_enabled: bool,
    memory: Option<&SessionMemory>,
    max_chars: usize,
    detector: &InjectionDetector,
) -> (r: (AgentTurnInput, Option<AuditEvent>))
    ensures
        input.session_id is None || !store_enabled ==> r.0 == input && r.1 is None,
        input.session_id is Some && store_enabled ==> (r.1 matches Some(e)
            && session_memory_applied(input, memory, max_chars, *detector, r.0, e)),
{
    if input.session_id.is_none() || !store_enabled {
        return (input, None);
    }
    let (out, event) = apply_session_memory(input, memory, max_chars, detector);
    (out, Some(event))
}

} // verus!
