//! Input and answer guardrails.

pub mod answer_policy;
pub mod injection;
pub mod input_guard;
