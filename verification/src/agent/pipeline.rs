//! The `/agent` pipeline's identity and its pure-logic terminal stage: the finalizer, which
//! renders the analyst's report followed by each chart as a fenced `falcon-chart` block.

use vstd::prelude::*;

use crate::agent::config::SubAgentId;
use crate::agent::payload::{AgentError, ArtifactKey, PayloadKind};
use crate::agent::stage::{payload_kind, AgentPayload, FinalResult};
use crate::agent::tool_loop::{find_artifact, key_id, lookup};
use crate::agent::config::PipelineId;
use crate::text::{push_str, to_owned_string, trim_end, trim_end_seq};

verus! {

/// The pipeline id that selects the `/agent` pipeline.
pub fn agent_pipeline_id() -> (r: PipelineId)
    ensures
        r.0@ == "agent"@,
{
    PipelineId(to_owned_string("agent"))
}

/// One chart's fenced block, from its pretty-printed JSON.
pub open spec fn chart_block(json: Seq<char>) -> Seq<char> {
    "\n\n```falcon-chart\n"@ + json + "\n```"@
}

/// The report body followed by each chart block, in order.
pub open spec fn rendered(report: Seq<char>, charts: Seq<Seq<char>>) -> Seq<char>
    decreases charts.len(),
{
    if charts.len() == 0 {
        trim_end_seq(report)
    } else {
        rendered(report, charts.drop_last()) + chart_block(charts.last())
    }
}

/// Assembles the terminal answer: the report with trailing whitespace trimmed, then each chart
/// (given as its pretty-printed JSON) as its own fenced `falcon-chart` block.
pub fn render_report(report: &str, charts: &[String]) -> (r: String)
    ensures
        r@ == rendered(report@, charts@.map_values(|c: String| c@)),
{
    let ghost cv = charts@.map_values(|c: String| c@);
    let mut acc = trim_end(report);
    let mut i: usize = 0;
    while i < charts.len()
        invariant
            i <= charts.len(),
            cv == charts@.map_values(|c: String| c@),
            acc@ == rendered(report@, cv.take(i as int)),
        decreases charts.len() - i,
    {
        push_str(&mut acc, "\n\n```falcon-chart\n");
        push_str(&mut acc, charts[i].as_str());
        push_str(&mut acc, "\n```");
        proof {
            let t = cv.take(i as int + 1);
            assert(t.drop_last() =~= cv.take(i as int));
            assert(t.last() == charts@[i as int]@);
            assert(acc@ =~= rendered(report@, t));
        }
        i += 1;
    }
    assert(cv.take(charts.len() as int) =~= cv);
    acc
}

/// The finalizer's answer from the report's text and the charts' pretty-printed JSON.
pub open spec fn answer_of(report: String, charts: Vec<String>) -> Seq<char> {
    rendered(report@, charts@.map_values(|c: String| c@))
}

/// The combine-everything terminal stage: no LLM and no tools; it renders the message of its
/// `report_source` stage plus any charts.
pub struct Finalizer {
    id: SubAgentId,
    report_source: SubAgentId,
}

impl Finalizer {
    /// The stage's own id.
    pub closed spec fn stage_id(self) -> SubAgentId {
        self.id
    }

    /// The stage whose message is the report to render.
    pub closed spec fn source(self) -> SubAgentId {
        self.report_source
    }

    /// Builds a finalizer that renders `report_source`'s message as the report body.
    pub fn new(id: SubAgentId, report_source: SubAgentId) -> (r: Self)
        ensures
            r.stage_id() == id,
            r.source() == report_source,
    {
        Finalizer { id, report_source }
    }

    /// The finalizer with its canonical `finalizer` id, rendering the `analyst`'s message.
    pub fn default_stage() -> (r: Self)
        ensures
            r.stage_id().0@ == "finalizer"@,
            r.source().0@ == "analyst"@,
    {
        Self::new(SubAgentId(to_owned_string("finalizer")), SubAgentId(to_owned_string("analyst")))
    }

    /// The stage's id.
    pub fn id(&self) -> (r: &SubAgentId)
        ensures
            *r == self.stage_id(),
    {
        &self.id
    }

    /// The artifact the report is read from: `{report_source}.message`.
    pub fn report_key(&self) -> (r: ArtifactKey)
        ensures
            r.agent_part() == self.source().0@,
            r.name_part() == "message"@,
    {
        ArtifactKey::message(self.report_source.0.as_str())
    }

    /// The stage's decision on one payload: only `Intermediate` is accepted; the report (the
    /// text of the artifact under [`Finalizer::report_key`], if present) is required; the answer
    /// is the report with its charts rendered.
    pub fn finish(&self, input: PayloadKind, report: Option<&str>, charts: &[String]) -> (r:
        Result<String, AgentError>)
        ensures
            input != PayloadKind::Intermediate ==> (r matches Err(AgentError::Mismatch { expected, got })
                && expected@ == seq![PayloadKind::Intermediate] && got == input),
            input == PayloadKind::Intermediate && report is None ==> (r matches Err(
                AgentError::MissingArtifact(k),
            ) && k.agent_part() == self.source().0@ && k.name_part() == "message"@),
            input == PayloadKind::Intermediate && report is Some ==> (r matches Ok(text)
                && text@ == rendered(report->0@, charts@.map_values(|c: String| c@))),
    {
        match input {
            PayloadKind::Intermediate => {},
            _ => {
                let expected = vec![PayloadKind::Intermediate];
                assert(expected@ =~= seq![PayloadKind::Intermediate]);
                return Err(AgentError::Mismatch { expected, got: input });
            },
        }
        match report {
            None => Err(AgentError::MissingArtifact(self.report_key())),
            Some(text) => Ok(render_report(text, charts)),
        }
    }

    /// The stage's run on a payload: only working data is accepted; the report is the value under
    /// `{report_source}.message` (required), shown as text by `text_of`; the charts are those
    /// `charts_of` takes from the `charts.spec` artifact (none without it). The result is the
    /// user-facing answer, carrying the request, the turn's instant and every artifact as
    /// provenance.
    pub fn run<V, T: Fn(&V) -> String, C: Fn(&V) -> Vec<String>>(
        &self,
        input: AgentPayload<V>,
        text_of: T,
        charts_of: C,
    ) -> (r: Result<AgentPayload<V>, AgentError>)
        requires
            forall|v: &V| #[trigger] text_of.requires((v,)),
            forall|v: &V| #[trigger] charts_of.requires((v,)),
        ensures
            payload_kind(input) != PayloadKind::Intermediate ==> (r matches Err(
                AgentError::Mismatch { expected, got },
            ) && expected@ == seq![PayloadKind::Intermediate] && got == payload_kind(input)),
            input matches AgentPayload::Intermediate(d) ==> match lookup(
                d.artifacts@,
                (self.source().0@, "message"@),
            ) {
                None => r matches Err(AgentError::MissingArtifact(k)) && k.agent_part()
                    == self.source().0@ && k.name_part() == "message"@,
                Some(rv) => r matches Ok(AgentPayload::Final(f)) && f.user == d.prompt && f.now
                    == d.now && f.artifacts@ == d.artifacts@ && exists|t: String, cs: Vec<String>|
                    #![trigger answer_of(t, cs)]
                    text_of.ensures((&rv,), t) && (match lookup(
                        d.artifacts@,
                        ("charts"@, "spec"@),
                    ) {
                        Some(cv) => charts_of.ensures((&cv,), cs),
                        None => cs@.len() == 0,
                    }) && f.assistant@ == answer_of(t, cs),
            },
    {
        let d = match input {
            AgentPayload::Intermediate(d) => d,
            other => {
                let expected = vec![PayloadKind::Intermediate];
                assert(expected@ =~= seq![PayloadKind::Intermediate]);
                return Err(AgentError::Mismatch { expected, got: other.kind() });
            },
        };
        let key = self.report_key();
        let report = match find_artifact(&d.artifacts, &key) {
            Some(i) => text_of(&d.artifacts[i].1),
            None => return Err(AgentError::MissingArtifact(key)),
        };
        let charts_key = ArtifactKey::charts_spec();
        let charts = match find_artifact(&d.artifacts, &charts_key) {
            Some(i) => charts_of(&d.artifacts[i].1),
            None => Vec::new(),
        };
        let assistant = render_report(report.as_str(), charts.as_slice());
        assert(assistant@ == answer_of(report, charts));
        Ok(AgentPayload::Final(FinalResult {
            user: d.prompt,
            assistant,
            now: d.now,
            artifacts: d.artifacts,
        }))
    }
}

} // verus!
