//! The streaming event model: one injected [`EventSink`] carrying one tagged [`AgentEvent`].

use vstd::prelude::*;

use crate::agent::config::SubAgentId;
use crate::agent::payload::{ArtifactKey, PayloadKind};

verus! {

/// The outcome of a completed stage.
#[derive(Clone, Copy, Debug, PartialEq, Eq)]
pub enum StageOutcome {
    /// The stage's run returned `Ok`.
    Success,
    /// The stage's run returned `Err`; a terminal [`AgentEvent::Error`] always follows.
    Failure,
}

/// One event on the sub-agent layer's ordered stream.
#[derive(Clone, Debug, PartialEq)]
pub enum AgentEvent {
    /// A stage began, handed a payload of this kind.
    StageStarted { agent: SubAgentId, input: PayloadKind },
    /// A stage added these artifact keys, in sorted order.
    StageProduced { agent: SubAgentId, keys: Vec<ArtifactKey> },
    /// A stage finished with this outcome.
    StageFinished { agent: SubAgentId, outcome: StageOutcome },
    /// A fragment of the model's reasoning.
    ReasoningDelta { text: String },
    /// A fragment of the model's answer content.
    ContentDelta { text: String },
    /// A raw fragment of a tool call's streamed JSON arguments.
    ToolArgsDelta { id: String, fragment: String },
    /// The model finished proposing a tool call.
    ToolCallProposed { id: String, name: String },
    /// A granted tool began executing.
    ToolStarted { name: String },
    /// A tool produced a value into `target`.
    ToolProduced { name: String, target: ArtifactKey },
    /// A tool rejected the call (retryable).
    ToolRejected { name: String, reason: String },
    /// The run finished with the final user-facing answer.
    Finished { assistant: String },
    /// The run failed.
    Error { message: String },
}

/// The injected sink: fire-and-forget, so emission never blocks an agent.
pub trait EventSink {
    /// Emits one event.
    fn emit(&self, event: AgentEvent);
}

/// The buffered / non-streaming sink: drops every event.
pub struct NullSink;

impl EventSink for NullSink {
    fn emit(&self, event: AgentEvent) {
    }
}

} // verus!
