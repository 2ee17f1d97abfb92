//! The orchestrator's run over a pipeline, as a state machine: which stage runs next, the events
//! around each stage, where a failed stage stops the run, and the closing `Finished` event.
//!
//! The caller awaits each stage itself: `next_stage` names the stage and its opening event, the
//! caller runs it, then reports `stage_ok` or `stage_err`; once `next_stage` gives `None`,
//! `finish` gives the closing event.

use vstd::prelude::*;

use crate::agent::config::{PipelineId, SubAgentId};
use crate::agent::engine::{keys_view, new_keys, key_order, stage_failed, stage_started,
    stage_succeeded, run_finished, unknown_pipeline};
use crate::agent::events::{AgentEvent, StageOutcome};
use crate::agent::payload::{agent_error_text, AgentError, ArtifactKey, PayloadKind};

verus! {

/// A run over a pipeline's stages.
pub struct PipelineRun {
    stages: Vec<SubAgentId>,
    next: usize,
    failed: bool,
}

impl PipelineRun {
    /// The pipeline's stages, in order.
    pub closed spec fn stage_list(self) -> Seq<SubAgentId> {
        self.stages@
    }

    /// How many stages have succeeded.
    pub closed spec fn done(self) -> nat {
        self.next as nat
    }

    /// Whether a stage failed, which ends the run.
    pub closed spec fn has_failed(self) -> bool {
        self.failed
    }

    /// The run's invariant: no more stages done than the pipeline holds.
    pub closed spec fn wf(self) -> bool {
        self.next <= self.stages@.len()
    }

    /// Starts a run over the stages registered under `id` (`None` when nothing is registered):
    /// an unknown pipeline fails at once, before any stage or event.
    pub fn start(id: &PipelineId, stages: Option<Vec<SubAgentId>>) -> (r: Result<Self, AgentError>)
        ensures
            match stages {
                None => r matches Err(AgentError::Capability(m)) && m@ == "unknown pipeline: "@
                    + id.0@,
                Some(s) => r matches Ok(run) && run.wf() && run.stage_list() == s@ && run.done()
                    == 0 && !run.has_failed(),
            },
    {
        match stages {
            None => Err(unknown_pipeline(id)),
            Some(s) => Ok(PipelineRun { stages: s, next: 0, failed: false }),
        }
    }

    /// The next stage to run, with the event opening it, fed a payload of kind `input`; `None`
    /// once every stage succeeded or one failed.
    pub fn next_stage(&self, input: PayloadKind) -> (r: Option<(SubAgentId, AgentEvent)>)
        requires
            self.wf(),
        ensures
            (self.has_failed() || self.done() == self.stage_list().len()) ==> r is None,
            !self.has_failed() && self.done() < self.stage_list().len() ==> (r matches Some((a, e))
                && a == self.stage_list()[self.done() as int] && e == (AgentEvent::StageStarted {
                agent: a,
                input,
            })),
    {
        if self.failed || self.next >= self.stages.len() {
            return None;
        }
        let agent = self.stages[self.next].clone();
        let event = stage_started(&agent, input);
        Some((agent, event))
    }

    /// The current stage succeeded, its input carrying the artifact keys `before` and its output
    /// `after`: the events closing it (the keys it added, sorted, when any; then its success),
    /// and the run moves to the next stage.
    pub fn stage_ok(&mut self, before: &[ArtifactKey], after: &[ArtifactKey]) -> (r: Vec<
        AgentEvent,
    >)
        requires
            old(self).wf(),
            !old(self).has_failed(),
            old(self).done() < old(self).stage_list().len(),
        ensures
            final(self).wf(),
            final(self).stage_list() == old(self).stage_list(),
            final(self).done() == old(self).done() + 1,
            !final(self).has_failed(),
            ({
                let agent = old(self).stage_list()[old(self).done() as int];
                let added = new_keys(keys_view(before@), keys_view(after@));
                &&& added.len() == 0 ==> r@ == seq![
                    AgentEvent::StageFinished { agent, outcome: StageOutcome::Success },
                ]
                &&& added.len() > 0 ==> (r@.len() == 2 && (r@[0] matches AgentEvent::StageProduced {
                    agent: a,
                    keys,
                } && a == agent && keys_view(keys@) == added.sort_by(key_order())) && r@[1] == (
                AgentEvent::StageFinished { agent, outcome: StageOutcome::Success }))
            }),
    {
        assert(self.next < self.stages.len());
        let events = stage_succeeded(&self.stages[self.next], before, after);
        self.next = self.next + 1;
        events
    }

    /// The current stage failed with `err`: the stage is marked failed, then the terminal error
    /// event; no later stage runs and the run closes without `Finished`.
    pub fn stage_err(&mut self, err: &AgentError) -> (r: Vec<AgentEvent>)
        requires
            old(self).wf(),
            !old(self).has_failed(),
            old(self).done() < old(self).stage_list().len(),
        ensures
            final(self).wf(),
            final(self).has_failed(),
            final(self).stage_list() == old(self).stage_list(),
            final(self).done() == old(self).done(),
            r@.len() == 2,
            r@[0] == (AgentEvent::StageFinished {
                agent: old(self).stage_list()[old(self).done() as int],
                outcome: StageOutcome::Failure,
            }),
            r@[1] matches AgentEvent::Error { message } && message@ == agent_error_text(*err),
    {
        let events = stage_failed(&self.stages[self.next], err);
        self.failed = true;
        events
    }

    /// The event closing the run: `Finished` with the answer when every stage succeeded and the
    /// last one gave a final answer (`final_assistant`); nothing after a failure or before the last
    /// stage.
    pub fn finish(&self, final_assistant: Option<&str>) -> (r: Option<AgentEvent>)
        requires
            self.wf(),
        ensures
            (self.has_failed() || self.done() < self.stage_list().len()) ==> r is None,
            !self.has_failed() && self.done() == self.stage_list().len() ==> match final_assistant {
                Some(a) => r matches Some(AgentEvent::Finished { assistant }) && assistant@ == a@,
                None => r is None,
            },
    {
        if self.failed || self.next < self.stages.len() {
            return None;
        }
        run_finished(final_assistant)
    }
}

} // verus!
