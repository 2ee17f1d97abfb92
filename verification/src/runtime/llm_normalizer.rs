//! Optional LLM-backed input normalization seam.

use vstd::prelude::*;

use super::error::RuntimeResult;
use super::schema::NormalizedInput;

verus! {

/// Disabled normalizer that returns input unchanged.
#[derive(Debug, Default, Clone, Copy)]
pub struct DisabledLlmNormalizer;

impl DisabledLlmNormalizer {
    /// Returns the input unchanged.
    pub fn normalize(&self, input: NormalizedInput) -> (r: RuntimeResult<NormalizedInput>)
        ensures
            r == Ok::<NormalizedInput, super::error::RuntimeError>(input),
    {
        Ok(input)
    }
}

} // verus!
