//! Structural input guardrails.

use vstd::prelude::*;

use crate::runtime::error::{RuntimeError, RuntimeResult};
use crate::text::{all_ws, chars_vec, is_blank};

verus! {

/// Validate prompt presence and length.
///
/// A prompt that is empty once trimmed is `InputRequired`; one longer than `max_prompt_chars`
/// Unicode scalar values is `InputTooLong` carrying its length; anything else passes.
pub fn validate_prompt(prompt: &str, max_prompt_chars: usize) -> (r: RuntimeResult<()>)
    ensures
        all_ws(prompt@) ==> r == Err::<(), RuntimeError>(RuntimeError::InputRequired),
        !all_ws(prompt@) && prompt@.len() > max_prompt_chars ==> r == Err::<(), RuntimeError>(
            RuntimeError::InputTooLong(prompt@.len() as usize),
        ),
        !all_ws(prompt@) && prompt@.len() <= max_prompt_chars ==> r is Ok,
{
    if is_blank(prompt) {
        return Err(RuntimeError::InputRequired);
    }
    let char_count = chars_vec(prompt).len();
    if char_count > max_prompt_chars {
        return Err(RuntimeError::InputTooLong(char_count));
    }
    Ok(())
}

} // verus!
