//! Runtime error model.

use vstd::prelude::*;

use crate::text::{concat2, concat3, to_owned_string, u64_to_decimal, decimal};

verus! {

/// Error type used inside the runtime core.
#[derive(Debug, Clone, PartialEq, Eq)]
pub enum RuntimeError {
    /// Boot-time or configuration contract error.
    Config(String),
    /// Config referenced a module id that has no registered implementation.
    UnknownModule {
        /// Unknown module id.
        id: String,
        /// Config section that referenced the id.
        section: String,
    },
    /// Config referenced an intent id outside the allowlist.
    IntentNotAllowed(String),
    /// Request validation or policy error.
    Request(String),
    /// Input was required but absent.
    InputRequired,
    /// Input exceeded configured character limit.
    InputTooLong(usize),
    /// Pipeline contract was violated.
    PipelineContract,
    /// Audit sink failed.
    AuditSink(String),
    /// Upstream agent, tool, or model error.
    Upstream(String),
    /// Internal runtime failure.
    Internal(String),
}

/// Runtime result alias.
pub type RuntimeResult<T> = Result<T, RuntimeError>;

/// The human-readable rendering of each error.
pub open spec fn error_message(e: RuntimeError) -> Seq<char> {
    match e {
        RuntimeError::Config(m) => "runtime config error: "@ + m@,
        RuntimeError::UnknownModule { id, section } => "unknown module id `"@ + id@ + "` in ["@
            + section@ + "]"@,
        RuntimeError::IntentNotAllowed(i) => "intent `"@ + i@ + "` not in allowlist"@,
        RuntimeError::Request(m) => "runtime request error: "@ + m@,
        RuntimeError::InputRequired => "input required"@,
        RuntimeError::InputTooLong(n) => "input too long: "@ + decimal(n as nat) + " chars"@,
        RuntimeError::PipelineContract => "pipeline contract invalid"@,
        RuntimeError::AuditSink(m) => "audit sink failed: "@ + m@,
        RuntimeError::Upstream(m) => "runtime upstream error: "@ + m@,
        RuntimeError::Internal(m) => "runtime internal error: "@ + m@,
    }
}

impl RuntimeError {
    /// The error's human-readable message.
    pub fn message(&self) -> (s: String)
        ensures
            s@ == error_message(*self),
    {
        match self {
            RuntimeError::Config(m) => concat2("runtime config error: ", m.as_str()),
            RuntimeError::UnknownModule { id, section } => {
                let mut s = concat3("unknown module id `", id.as_str(), "` in [");
                let t = concat2(section.as_str(), "]");
                crate::text::push_str(&mut s, t.as_str());
                s
            },
            RuntimeError::IntentNotAllowed(i) => concat3("intent `", i.as_str(), "` not in allowlist"),
            RuntimeError::Request(m) => concat2("runtime request error: ", m.as_str()),
            RuntimeError::InputRequired => to_owned_string("input required"),
            RuntimeError::InputTooLong(n) => {
                let d = u64_to_decimal(*n as u64);
                concat3("input too long: ", d.as_str(), " chars")
            },
            RuntimeError::PipelineContract => to_owned_string("pipeline contract invalid"),
            RuntimeError::AuditSink(m) => concat2("audit sink failed: ", m.as_str()),
            RuntimeError::Upstream(m) => concat2("runtime upstream error: ", m.as_str()),
            RuntimeError::Internal(m) => concat2("runtime internal error: ", m.as_str()),
        }
    }
}

} // verus!
