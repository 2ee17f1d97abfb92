//! Evaluation trait and the placeholder evaluator.

use vstd::prelude::*;

use crate::runtime::error::RuntimeResult;

verus! {

/// One evaluator.
pub trait Evaluator {
    /// Stable evaluator id.
    fn id(&self) -> &str;

    /// Execute the evaluator.
    fn run(&self) -> RuntimeResult<()>;
}

/// Placeholder evaluator used while concrete eval modes are implemented.
#[derive(Debug, Clone)]
pub struct NoopEvaluator {
    id: String,
}

impl NoopEvaluator {
    /// The evaluator's id.
    pub closed spec fn spec_id(self) -> Seq<char> {
        self.id@
    }

    /// Create a no-op evaluator with a stable id.
    pub fn new(id: String) -> (e: Self)
        ensures
            e.spec_id() == id@,
    {
        NoopEvaluator { id }
    }
}

impl Evaluator for NoopEvaluator {
    /// The id it was created with.
    fn id(&self) -> (s: &str)
        ensures
            s@ == self.spec_id(),
    {
        self.id.as_str()
    }

    /// Always succeeds.
    fn run(&self) -> (r: RuntimeResult<()>)
        ensures
            r is Ok,
    {
        Ok(())
    }
}

} // verus!
