//! The payload a stage consumes and produces, and a configured stage's handling of it: the
//! accept check, what it reads from its input, and the payload its output shape yields.
//!
//! Artifact values are a type parameter: the stage logic carries them without looking inside.

use vstd::prelude::*;

use crate::agent::clock::{current_time_header, local_stamp, time_header_text};
use crate::agent::config::OutputShape;
use crate::agent::engine::check_accepts;
use crate::agent::payload::{AgentError, ArtifactKey, Exchange, PayloadKind};
use crate::text::{concat2, to_owned_string};

verus! {

/// The instant a turn began: milliseconds since the Unix epoch, shown at a fixed offset (seconds
/// east of UTC). Stamped once when the turn starts and carried unchanged through every stage.
#[derive(Clone, Copy, Debug, PartialEq, Eq)]
pub struct TurnInstant {
    pub epoch_ms: i64,
    pub offset_secs: i32,
}

/// Pipeline entry: the user's request, the prior turns, and the turn's instant.
pub struct InitialPrompt {
    pub prompt: String,
    pub history: Vec<Exchange>,
    pub now: TurnInstant,
}

/// Working data between stages: the instruction carried forward and the artifact entries (one per
/// key).
pub struct IntermediateData<V> {
    pub prompt: String,
    pub artifacts: Vec<(ArtifactKey, V)>,
    pub now: TurnInstant,
}

/// The user-facing result, with the accumulated artifacts as provenance.
pub struct FinalResult<V> {
    pub user: String,
    pub assistant: String,
    pub now: TurnInstant,
    pub artifacts: Vec<(ArtifactKey, V)>,
}

/// The value every stage consumes and produces.
pub enum AgentPayload<V> {
    Initial(InitialPrompt),
    Intermediate(IntermediateData<V>),
    Final(FinalResult<V>),
}

/// The variant tag of a payload.
pub open spec fn payload_kind<V>(p: AgentPayload<V>) -> PayloadKind {
    match p {
        AgentPayload::Initial(_) => PayloadKind::Initial,
        AgentPayload::Intermediate(_) => PayloadKind::Intermediate,
        AgentPayload::Final(_) => PayloadKind::Final,
    }
}

impl<V> AgentPayload<V> {
    /// The payload's variant tag.
    pub fn kind(&self) -> (r: PayloadKind)
        ensures
            r == payload_kind(*self),
    {
        match self {
            AgentPayload::Initial(_) => PayloadKind::Initial,
            AgentPayload::Intermediate(_) => PayloadKind::Intermediate,
            AgentPayload::Final(_) => PayloadKind::Final,
        }
    }
}

/// The request text a stage reads from a payload: the prompt, or the user's words of a result.
pub open spec fn payload_prompt<V>(p: AgentPayload<V>) -> String {
    match p {
        AgentPayload::Initial(i) => i.prompt,
        AgentPayload::Intermediate(d) => d.prompt,
        AgentPayload::Final(f) => f.user,
    }
}

/// The artifacts a stage carries forward from a payload: only working data carries any.
pub open spec fn payload_carried<V>(p: AgentPayload<V>) -> Seq<(ArtifactKey, V)> {
    match p {
        AgentPayload::Intermediate(d) => d.artifacts@,
        _ => Seq::empty(),
    }
}

/// The turn's instant a payload carries.
pub open spec fn payload_now<V>(p: AgentPayload<V>) -> TurnInstant {
    match p {
        AgentPayload::Initial(i) => i.now,
        AgentPayload::Intermediate(d) => d.now,
        AgentPayload::Final(f) => f.now,
    }
}

/// What a configured stage reads from its input: a payload kind outside its accept-set is a
/// mismatch; otherwise the request text, the carried artifacts and the turn's instant.
pub fn stage_input<V>(accepts: &Vec<PayloadKind>, input: AgentPayload<V>) -> (r: Result<
    (String, Vec<(ArtifactKey, V)>, TurnInstant),
    AgentError,
>)
    ensures
        !accepts@.contains(payload_kind(input)) ==> (r matches Err(
            AgentError::Mismatch { expected, got },
        ) && expected@ == accepts@ && got == payload_kind(input)),
        accepts@.contains(payload_kind(input)) ==> (r matches Ok((prompt, carried, now))
            && prompt == payload_prompt(input) && carried@ == payload_carried(input) && now
            == payload_now(input)),
{
    check_accepts(accepts, input.kind())?;
    match input {
        AgentPayload::Initial(i) => Ok((i.prompt, Vec::new(), i.now)),
        AgentPayload::Intermediate(d) => Ok((d.prompt, d.artifacts, d.now)),
        AgentPayload::Final(f) => Ok((f.user, Vec::new(), f.now)),
    }
}

/// The payload a configured stage hands on: working data carrying the request and the artifacts
/// forward, or the user-facing result whose answer is the stage's message.
pub fn stage_output<V>(
    shape: OutputShape,
    prompt: String,
    message: String,
    artifacts: Vec<(ArtifactKey, V)>,
    now: TurnInstant,
) -> (r: AgentPayload<V>)
    ensures
        shape == OutputShape::Intermediate ==> (r matches AgentPayload::Intermediate(d)
            && d.prompt == prompt && d.artifacts@ == artifacts@ && d.now == now),
        shape == OutputShape::Final ==> (r matches AgentPayload::Final(f) && f.user == prompt
            && f.assistant == message && f.artifacts@ == artifacts@ && f.now == now),
{
    match shape {
        OutputShape::Intermediate => AgentPayload::Intermediate(
            IntermediateData { prompt, artifacts, now },
        ),
        OutputShape::Final => AgentPayload::Final(
            FinalResult { user: prompt, assistant: message, now, artifacts },
        ),
    }
}

/// The system message a configured stage sends: the `# Current Time` header of the turn's instant,
/// then the stage's instruction (the instruction alone for an instant that cannot be shown).
pub fn stage_system_prompt(now: TurnInstant, instruction: &str) -> (r: String)
    ensures
        match local_stamp(now.epoch_ms, now.offset_secs) {
            Some(st) => r@ == time_header_text(st) + instruction@,
            None => r@ == instruction@,
        },
{
    match current_time_header(now.epoch_ms, now.offset_secs) {
        Some(h) => concat2(h.as_str(), instruction),
        None => to_owned_string(instruction),
    }
}

} // verus!
