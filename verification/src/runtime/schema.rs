//! Shared runtime schema.
//!
//! Confidences are carried as integers in ten-thousandths (`9500` stands for `0.95`), which keeps
//! their order exact for the threshold comparisons the policy makes.

use vstd::prelude::*;

use crate::model::History;

verus! {

/// One raw user turn entering the runtime.
#[derive(Debug, Clone, PartialEq, Eq)]
pub struct AgentTurnInput {
    /// Runtime request id (rendered UUID).
    pub request_id: String,
    /// Prompt sent to the agent (may be memory-augmented during the turn).
    pub prompt: String,
    /// Original user input, preserved across memory augmentation.
    pub raw_input: String,
    /// Client-provided history fallback.
    pub history: Vec<History>,
    /// Optional server-side memory session id.
    pub session_id: Option<String>,
    /// Optional frontend option id.
    pub option_id: Option<String>,
}

/// Warning emitted by deterministic normalization or policy stages.
#[derive(Debug, Clone, PartialEq, Eq)]
pub struct RuntimeWarning {
    /// Machine-readable warning code.
    pub code: String,
    /// Human-readable warning message.
    pub message: String,
}

/// Slots extracted from a user prompt.
#[derive(Debug, Clone, Default, PartialEq, Eq)]
pub struct NormalizedSlots {
    /// Optional time range phrase.
    pub time_range: Option<String>,
    /// Optional metric id.
    pub metric: Option<String>,
    /// Optional asset id or name.
    pub asset: Option<String>,
    /// Optional rank limit.
    pub rank_limit: Option<u32>,
}

/// Source that selected the final intent.
#[derive(Debug, Clone, Copy, PartialEq, Eq)]
pub enum IntentSource {
    /// Frontend option id path.
    OptionPath,
    /// Rule/lexicon classifier.
    RuleLexicon,
    /// Text classifier overrode an option path.
    TextOverride,
    /// Unknown fallback.
    Unknown,
}

/// Deterministically normalized input.
#[derive(Debug, Clone, PartialEq, Eq)]
pub struct NormalizedInput {
    /// Normalized prompt text.
    pub prompt: String,
    /// Selected intent id.
    pub intent: String,
    /// Intent confidence, in ten-thousandths.
    pub confidence: u32,
    /// Candidate intent ids observed while classifying.
    pub candidate_intents: Vec<String>,
    /// Source of the selected intent.
    pub intent_source: Option<IntentSource>,
    /// Extracted slots.
    pub slots: NormalizedSlots,
    /// Non-fatal warnings.
    pub warnings: Vec<RuntimeWarning>,
}

/// Internal turn frames used by the orchestrator.
#[derive(Debug, Clone, PartialEq, Eq)]
pub enum AgentTurnFrame {
    /// A token fragment.
    Token { data: String },
    /// Clear any accumulated answer buffer.
    Clear,
    /// Tool call metadata, internal only.
    ToolCalled {
        /// Tool name.
        name: String,
        /// SHA-256 hash of tool arguments.
        args_hash: String,
    },
    /// Tool result metadata, internal only.
    ToolResult {
        /// Tool name.
        name: String,
        /// Result byte length.
        bytes: usize,
        /// Whether the tool call succeeded.
        ok: bool,
    },
    /// Completed normally.
    Done,
    /// Terminal error.
    Error { data: String },
}

} // verus!
