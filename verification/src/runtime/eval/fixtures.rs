//! Pipeline eval fixtures.

use vstd::prelude::*;

verus! {

/// One pipeline eval fixture.
#[derive(Debug, Clone, PartialEq, Eq)]
pub struct PipelineFixture {
    /// Fixture id.
    pub id: String,
    /// User prompt.
    pub prompt: String,
    /// Optional option id.
    pub option_id: Option<String>,
    /// Expected intent id.
    pub expected_intent: String,
    /// Expected metric slot.
    pub expected_metric: Option<String>,
    /// Expected asset slot.
    pub expected_asset: Option<String>,
    /// Expected rank limit slot.
    pub expected_rank_limit: Option<u32>,
}

} // verus!
