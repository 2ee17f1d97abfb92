//! The sub-agent engine's decisions: accept-sets, the logic-only hello-world agent, pipeline
//! resolution against the built agents, and the stage framing the orchestrator emits.

use vstd::prelude::*;
use vstd::relations::{sorted_by, total_ordering};

use crate::agent::config::{PipelineConfig, PipelineId, ResolveError, SubAgentId};
use crate::agent::events::{AgentEvent, StageOutcome};
use crate::agent::payload::{agent_error_text, dotted, AgentError, ArtifactKey, PayloadKind};
use crate::search::{first_where, is_first, lemma_first_where_none, lemma_first_where_some,
    lemma_seq_lt_irreflexive, lemma_seq_lt_transitive, lemma_seq_lt_trichotomy, seq_lt, str_lt};
use crate::text::{chars_vec, concat2, push_str, str_eq, to_owned_string};

verus! {

/// The canonical accept-set: each kind present in `kinds`, in `Initial`, `Intermediate`, `Final`
/// order, once.
pub open spec fn canonical_kinds(kinds: Seq<PayloadKind>) -> Seq<PayloadKind> {
    let i: Seq<PayloadKind> = if kinds.contains(PayloadKind::Initial) {
        seq![PayloadKind::Initial]
    } else {
        Seq::empty()
    };
    let m: Seq<PayloadKind> = if kinds.contains(PayloadKind::Intermediate) {
        seq![PayloadKind::Intermediate]
    } else {
        Seq::empty()
    };
    let f: Seq<PayloadKind> = if kinds.contains(PayloadKind::Final) {
        seq![PayloadKind::Final]
    } else {
        Seq::empty()
    };
    i + m + f
}

/// The canonical accept-set holds exactly the kinds it was built from.
proof fn lemma_canonical_contains(kinds: Seq<PayloadKind>, k: PayloadKind)
    ensures
        canonical_kinds(kinds).contains(k) <==> kinds.contains(k),
{
    let c = canonical_kinds(kinds);
    if kinds.contains(k) {
        match k {
            PayloadKind::Initial => assert(c[0] == k),
            PayloadKind::Intermediate => {
                if kinds.contains(PayloadKind::Initial) {
                    assert(c[1] == k);
                } else {
                    assert(c[0] == k);
                }
            },
            PayloadKind::Final => assert(c[c.len() - 1] == k),
        }
    }
    if c.contains(k) {
        let j = choose|j: int| 0 <= j < c.len() && c[j] == k;
        match k {
            PayloadKind::Initial => {},
            PayloadKind::Intermediate => {},
            PayloadKind::Final => {},
        }
    }
}

/// Interning is order- and duplicate-insensitive and idempotent: the canonical set keeps exactly
/// the accepted kinds, and interning it again changes nothing.
pub proof fn law_interned_accepts_are_canonical(kinds: Seq<PayloadKind>, other: Seq<PayloadKind>)
    ensures
        forall|k: PayloadKind| #[trigger] canonical_kinds(kinds).contains(k) <==> kinds.contains(k),
        canonical_kinds(canonical_kinds(kinds)) == canonical_kinds(kinds),
        (forall|k: PayloadKind| #[trigger] kinds.contains(k) <==> other.contains(k)) ==> canonical_kinds(
            kinds,
        ) == canonical_kinds(other),
{
    assert forall|k: PayloadKind| #[trigger] canonical_kinds(kinds).contains(k) <==> kinds.contains(k) by {
        lemma_canonical_contains(kinds, k);
    }
    lemma_canonical_contains(kinds, PayloadKind::Initial);
    lemma_canonical_contains(kinds, PayloadKind::Intermediate);
    lemma_canonical_contains(kinds, PayloadKind::Final);
    assert(canonical_kinds(canonical_kinds(kinds)) =~= canonical_kinds(kinds));
    if forall|k: PayloadKind| #[trigger] kinds.contains(k) <==> other.contains(k) {
        assert(kinds.contains(PayloadKind::Initial) == other.contains(PayloadKind::Initial));
        assert(kinds.contains(PayloadKind::Intermediate) == other.contains(PayloadKind::Intermediate));
        assert(kinds.contains(PayloadKind::Final) == other.contains(PayloadKind::Final));
    }
}

/// Normalizes a runtime accept-set to its canonical form (see [`canonical_kinds`]).
pub fn intern_accepts(kinds: &[PayloadKind]) -> (r: Vec<PayloadKind>)
    ensures
        r@ == canonical_kinds(kinds@),
{
    let mut has_initial = false;
    let mut has_intermediate = false;
    let mut has_final = false;
    let mut i: usize = 0;
    while i < kinds.len()
        invariant
            i <= kinds.len(),
            has_initial == kinds@.take(i as int).contains(PayloadKind::Initial),
            has_intermediate == kinds@.take(i as int).contains(PayloadKind::Intermediate),
            has_final == kinds@.take(i as int).contains(PayloadKind::Final),
        decreases kinds.len() - i,
    {
        proof {
            let t = kinds@.take(i as int + 1);
            assert(t =~= kinds@.take(i as int).push(kinds@[i as int]));
            assert forall|k: PayloadKind| t.contains(k) <==> (kinds@.take(i as int).contains(k)
                || kinds@[i as int] == k) by {
                if t.contains(k) {
                    let j = choose|j: int| 0 <= j < t.len() && t[j] == k;
                    if j < i {
                        assert(kinds@.take(i as int)[j] == k);
                    }
                }
                if kinds@.take(i as int).contains(k) {
                    let j = choose|j: int| 0 <= j < i && kinds@.take(i as int)[j] == k;
                    assert(t[j] == k);
                }
                if kinds@[i as int] == k {
                    assert(t[i as int] == k);
                }
            }
        }
        match kinds[i] {
            PayloadKind::Initial => has_initial = true,
            PayloadKind::Intermediate => has_intermediate = true,
            PayloadKind::Final => has_final = true,
        }
        i += 1;
    }
    assert(kinds@.take(kinds.len() as int) =~= kinds@);
    let mut r: Vec<PayloadKind> = Vec::new();
    if has_initial {
        r.push(PayloadKind::Initial);
    }
    if has_intermediate {
        r.push(PayloadKind::Intermediate);
    }
    if has_final {
        r.push(PayloadKind::Final);
    }
    assert(r@ =~= canonical_kinds(kinds@));
    r
}

/// The logic-only agent: whatever `Initial` prompt it is handed, it answers `hello world.`.
pub struct HelloWorld {
    id: SubAgentId,
}

impl HelloWorld {
    /// The agent's identity.
    pub closed spec fn agent_id(self) -> SubAgentId {
        self.id
    }

    /// Builds a hello-world agent with the given identity.
    pub fn new(id: SubAgentId) -> (r: Self)
        ensures
            r.agent_id() == id,
    {
        HelloWorld { id }
    }

    /// The agent's identity.
    pub fn id(&self) -> (r: &SubAgentId)
        ensures
            *r == self.agent_id(),
    {
        &self.id
    }

    /// The payload kinds it accepts: `Initial` only.
    pub fn accepts(&self) -> (r: Vec<PayloadKind>)
        ensures
            r@ == seq![PayloadKind::Initial],
    {
        let r = vec![PayloadKind::Initial];
        assert(r@ =~= seq![PayloadKind::Initial]);
        r
    }

    /// The agent's answer to a payload of this kind: `hello world.` for `Initial`, a mismatch
    /// otherwise.
    pub fn answer(&self, input: PayloadKind) -> (r: Result<String, AgentError>)
        ensures
            input == PayloadKind::Initial ==> (r matches Ok(a) && a@ == "hello world."@),
            input != PayloadKind::Initial ==> (r matches Err(AgentError::Mismatch { expected, got })
                && expected@ == seq![PayloadKind::Initial] && got == input),
    {
        match input {
            PayloadKind::Initial => Ok(to_owned_string("hello world.")),
            _ => Err(AgentError::Mismatch { expected: self.accepts(), got: input }),
        }
    }
}

/// Agent `i` has id `id`.
pub open spec fn agent_at(agents: Seq<SubAgentId>, id: Seq<char>) -> spec_fn(int) -> bool {
    |i: int| agents[i].0@ == id
}

/// The position of the first built agent with id `id`.
pub open spec fn agent_position(agents: Seq<SubAgentId>, id: Seq<char>) -> Option<int> {
    first_where(agents.len() as int, agent_at(agents, id))
}

/// Stage `i` names no built agent.
pub open spec fn unresolved_at(stages: Seq<SubAgentId>, agents: Seq<SubAgentId>) -> spec_fn(
    int,
) -> bool {
    |i: int| agent_position(agents, stages[i].0@) is None
}

/// The position of a built agent with id `id`.
fn find_agent(agents: &[SubAgentId], id: &SubAgentId) -> (r: Option<usize>)
    ensures
        match r {
            Some(k) => agent_position(agents@, id.0@) == Some(k as int),
            None => agent_position(agents@, id.0@) is None,
        },
{
    let mut k: usize = 0;
    while k < agents.len()
        invariant
            k <= agents.len(),
            forall|j: int| 0 <= j < k ==> !#[trigger] agent_at(agents@, id.0@)(j),
        decreases agents.len() - k,
    {
        if str_eq(agents[k].0.as_str(), id.0.as_str()) {
            proof {
                lemma_first_where_some(agents@.len() as int, agent_at(agents@, id.0@), k as int);
            }
            return Some(k);
        }
        k += 1;
    }
    proof {
        lemma_first_where_none(agents@.len() as int, agent_at(agents@, id.0@));
    }
    None
}

/// Resolves a pipeline's stage references against the built agents (given by id), failing fast
/// on the first unknown reference; the result is each stage's position among the agents.
pub fn resolve_pipeline(cfg: &PipelineConfig, agents: &[SubAgentId]) -> (r: Result<
    Vec<usize>,
    ResolveError,
>)
    ensures
        match first_where(cfg.stages@.len() as int, unresolved_at(cfg.stages@, agents@)) {
            Some(i) => r matches Err(ResolveError::UnknownAgentRef { pipeline, agent })
                && pipeline == cfg.id && agent == cfg.stages@[i],
            None => r matches Ok(ix) && ix@.len() == cfg.stages@.len() && forall|j: int|
                0 <= j < ix@.len() ==> agent_position(agents@, cfg.stages@[j].0@) == Some(
                    #[trigger] ix@[j] as int,
                ),
        },
{
    let ghost st = cfg.stages@;
    let mut out: Vec<usize> = Vec::new();
    let mut i: usize = 0;
    while i < cfg.stages.len()
        invariant
            i <= cfg.stages.len(),
            st == cfg.stages@,
            out@.len() == i,
            forall|j: int| 0 <= j < i ==> !#[trigger] unresolved_at(st, agents@)(j),
            forall|j: int|
                0 <= j < i ==> agent_position(agents@, st[j].0@) == Some(#[trigger] out@[j] as int),
        decreases cfg.stages.len() - i,
    {
        match find_agent(agents, &cfg.stages[i]) {
            Some(k) => out.push(k),
            None => {
                proof {
                    lemma_first_where_some(st.len() as int, unresolved_at(st, agents@), i as int);
                }
                return Err(
                    ResolveError::UnknownAgentRef {
                        pipeline: cfg.id.clone(),
                        agent: cfg.stages[i].clone(),
                    },
                );
            },
        }
        i += 1;
    }
    proof {
        lemma_first_where_none(st.len() as int, unresolved_at(st, agents@));
    }
    Ok(out)
}

/// The view of an artifact key: `(agent, name)`.
pub open spec fn key_view(k: ArtifactKey) -> (Seq<char>, Seq<char>) {
    (k.agent_part(), k.name_part())
}

/// The views of a list of keys.
pub open spec fn keys_view(ks: Seq<ArtifactKey>) -> Seq<(Seq<char>, Seq<char>)> {
    ks.map_values(|k: ArtifactKey| key_view(k))
}

/// Key order: by producer, then by slot name.
pub open spec fn key_leq(a: (Seq<char>, Seq<char>), b: (Seq<char>, Seq<char>)) -> bool {
    seq_lt(a.0, b.0) || (a.0 == b.0 && !seq_lt(b.1, a.1))
}

/// The key order as a relation.
pub open spec fn key_order() -> spec_fn((Seq<char>, Seq<char>), (Seq<char>, Seq<char>)) -> bool {
    |a: (Seq<char>, Seq<char>), b: (Seq<char>, Seq<char>)| key_leq(a, b)
}

/// The key order is a total order.
proof fn lemma_key_total()
    ensures
        total_ordering(key_order()),
{
    assert forall|a: (Seq<char>, Seq<char>)| #[trigger] key_order()(a, a) by {
        lemma_seq_lt_irreflexive(a.1);
    }
    assert forall|a: (Seq<char>, Seq<char>), b: (Seq<char>, Seq<char>)|
        #[trigger] key_order()(a, b) && #[trigger] key_order()(b, a) implies a == b by {
        lemma_seq_lt_trichotomy(a.0, b.0);
        lemma_seq_lt_trichotomy(a.1, b.1);
    }
    assert forall|a: (Seq<char>, Seq<char>), b: (Seq<char>, Seq<char>), c: (Seq<char>, Seq<char>)|
        #[trigger] key_order()(a, b) && #[trigger] key_order()(b, c) implies key_order()(
        a,
        c,
    ) by {
        lemma_seq_lt_trichotomy(a.0, b.0);
        lemma_seq_lt_trichotomy(b.0, c.0);
        lemma_seq_lt_trichotomy(a.0, c.0);
        lemma_seq_lt_trichotomy(a.1, b.1);
        lemma_seq_lt_trichotomy(b.1, c.1);
        lemma_seq_lt_trichotomy(a.1, c.1);
        if seq_lt(a.0, b.0) && seq_lt(b.0, c.0) {
            lemma_seq_lt_transitive(a.0, b.0, c.0);
        }
        if seq_lt(c.1, a.1) && a.0 == b.0 && b.0 == c.0 {
            if seq_lt(c.1, b.1) {
                lemma_seq_lt_transitive(c.1, b.1, a.1);
            } else if b.1 != c.1 {
                lemma_seq_lt_transitive(b.1, c.1, a.1);
            }
        }
        if seq_lt(c.0, a.0) {
            if seq_lt(a.0, b.0) {
                lemma_seq_lt_transitive(c.0, a.0, b.0);
            }
            if seq_lt(b.0, c.0) {
                lemma_seq_lt_transitive(b.0, c.0, a.0);
            }
        }
    }
    assert forall|a: (Seq<char>, Seq<char>), b: (Seq<char>, Seq<char>)|
        #[trigger] key_order()(a, b) || #[trigger] key_order()(b, a) by {
        lemma_seq_lt_trichotomy(a.0, b.0);
        lemma_seq_lt_trichotomy(a.1, b.1);
    }
}

/// Whether key `a` sorts no later than key `b`.
fn key_le(a: &ArtifactKey, b: &ArtifactKey) -> (r: bool)
    ensures
        r == key_leq(key_view(*a), key_view(*b)),
{
    if str_lt(a.agent(), b.agent()) {
        true
    } else if str_eq(a.agent(), b.agent()) {
        !str_lt(b.name(), a.name())
    } else {
        false
    }
}

/// Sorts keys by producer, then slot name (insertion sort).
pub fn sort_keys(keys: Vec<ArtifactKey>) -> (r: Vec<ArtifactKey>)
    ensures
        keys_view(r@) == keys_view(keys@).sort_by(key_order()),
{
    let ghost src = keys_view(keys@);
    let mut sorted: Vec<ArtifactKey> = Vec::new();
    proof {
        lemma_key_total();
    }
    assert(keys_view(sorted@) =~= Seq::<(Seq<char>, Seq<char>)>::empty());
    assert(src.take(0) =~= Seq::<(Seq<char>, Seq<char>)>::empty());
    let mut i: usize = 0;
    while i < keys.len()
        invariant
            i <= keys.len(),
            src == keys_view(keys@),
            total_ordering(key_order()),
            sorted_by(keys_view(sorted@), key_order()),
            keys_view(sorted@).to_multiset() == src.take(i as int).to_multiset(),
        decreases keys.len() - i,
    {
        let x = keys[i].clone();
        let ghost xv = key_view(x);
        let mut pos: usize = 0;
        while pos < sorted.len()
            invariant
                pos <= sorted.len(),
                xv == key_view(x),
                forall|j: int| 0 <= j < pos ==> !key_leq(xv, #[trigger] keys_view(sorted@)[j]),
            ensures
                pos <= sorted.len(),
                forall|j: int| 0 <= j < pos ==> !key_leq(xv, #[trigger] keys_view(sorted@)[j]),
                pos < sorted.len() ==> key_leq(xv, keys_view(sorted@)[pos as int]),
            decreases sorted.len() - pos,
        {
            if key_le(&x, &sorted[pos]) {
                break;
            }
            pos += 1;
        }
        let ghost before = keys_view(sorted@);
        sorted.insert(pos, x);
        proof {
            let after = keys_view(sorted@);
            assert(after =~= before.insert(pos as int, xv));
            assert forall|a: int, b: int| 0 <= a < b < after.len() implies #[trigger] key_order()(
                after[a],
                after[b],
            ) by {
                if b < pos {
                    assert(key_order()(before[a], before[b]));
                } else if a < pos && b == pos {
                    assert(!key_leq(xv, before[a]));
                    assert(key_order()(before[a], xv) || key_order()(xv, before[a]));
                    assert(after[b] == xv);
                    assert(after[a] == before[a]);
                } else if a < pos && b > pos {
                    assert(after[a] == before[a]);
                    assert(after[b] == before[b - 1]);
                    assert(key_order()(before[a], before[b - 1]));
                } else if a == pos {
                    assert(key_order()(xv, before[pos as int]));
                    assert(after[a] == xv);
                    assert(after[b] == before[b - 1]);
                    if b - 1 > pos {
                        assert(key_order()(before[pos as int], before[b - 1]));
                    }
                } else {
                    assert(after[a] == before[a - 1]);
                    assert(after[b] == before[b - 1]);
                    assert(key_order()(before[a - 1], before[b - 1]));
                }
            }
            vstd::seq_lib::to_multiset_insert(before, pos as int, xv);
            vstd::seq_lib::to_multiset_build(src.take(i as int), xv);
            assert(src.take(i as int + 1) =~= src.take(i as int).push(xv));
        }
        i += 1;
    }
    proof {
        assert(src.take(keys.len() as int) =~= src);
        src.lemma_sort_by_ensures(key_order());
        vstd::seq_lib::lemma_sorted_unique(keys_view(sorted@), src.sort_by(key_order()), key_order());
    }
    sorted
}

/// The keys of `after` that `before` does not hold, in `after`'s order.
pub open spec fn new_keys(
    before: Seq<(Seq<char>, Seq<char>)>,
    after: Seq<(Seq<char>, Seq<char>)>,
) -> Seq<(Seq<char>, Seq<char>)>
    decreases after.len(),
{
    if after.len() == 0 {
        Seq::empty()
    } else if before.contains(after.last()) {
        new_keys(before, after.drop_last())
    } else {
        new_keys(before, after.drop_last()).push(after.last())
    }
}

/// Whether `keys` holds a key equal to `k`.
fn holds_key(keys: &[ArtifactKey], k: &ArtifactKey) -> (r: bool)
    ensures
        r == keys_view(keys@).contains(key_view(*k)),
{
    let mut i: usize = 0;
    while i < keys.len()
        invariant
            i <= keys.len(),
            forall|j: int| 0 <= j < i ==> key_view(#[trigger] keys@[j]) != key_view(*k),
        decreases keys.len() - i,
    {
        if str_eq(keys[i].agent(), k.agent()) && str_eq(keys[i].name(), k.name()) {
            assert(keys_view(keys@)[i as int] == key_view(*k));
            return true;
        }
        i += 1;
    }
    proof {
        if keys_view(keys@).contains(key_view(*k)) {
            let j = choose|j: int| 0 <= j < keys_view(keys@).len() && keys_view(keys@)[j] == key_view(*k);
            assert(key_view(keys@[j]) == key_view(*k));
        }
    }
    false
}

/// The stage's `StageProduced` event: the keys it added (present after it, absent before), in
/// key order; none when it added nothing.
pub fn stage_produced(agent: &SubAgentId, before: &[ArtifactKey], after: &[ArtifactKey]) -> (r:
    Option<AgentEvent>)
    ensures
        ({
            let added = new_keys(keys_view(before@), keys_view(after@));
            &&& added.len() == 0 ==> r is None
            &&& added.len() > 0 ==> (r matches Some(AgentEvent::StageProduced { agent: a, keys })
                && a == *agent && keys_view(keys@) == added.sort_by(key_order()))
        }),
{
    let mut added: Vec<ArtifactKey> = Vec::new();
    let mut i: usize = 0;
    while i < after.len()
        invariant
            i <= after.len(),
            keys_view(added@) == new_keys(keys_view(before@), keys_view(after@).take(i as int)),
        decreases after.len() - i,
    {
        proof {
            let t = keys_view(after@).take(i as int + 1);
            assert(t.drop_last() =~= keys_view(after@).take(i as int));
            assert(t.last() == key_view(after@[i as int]));
        }
        if !holds_key(before, &after[i]) {
            let ghost b = keys_view(added@);
            added.push(after[i].clone());
            assert(keys_view(added@) =~= b.push(key_view(after@[i as int])));
        }
        i += 1;
    }
    assert(keys_view(after@).take(after.len() as int) =~= keys_view(after@));
    if added.len() == 0 {
        return None;
    }
    let keys = sort_keys(added);
    Some(AgentEvent::StageProduced { agent: agent.clone(), keys })
}

/// The event closing a stage: success, or failure (always followed by the terminal error).
pub fn stage_finished(agent: &SubAgentId, ok: bool) -> (r: AgentEvent)
    ensures
        r == (AgentEvent::StageFinished {
            agent: *agent,
            outcome: if ok {
                StageOutcome::Success
            } else {
                StageOutcome::Failure
            },
        }),
{
    AgentEvent::StageFinished {
        agent: agent.clone(),
        outcome: if ok {
            StageOutcome::Success
        } else {
            StageOutcome::Failure
        },
    }
}


/// The failure of a run naming no registered pipeline.
pub fn unknown_pipeline(id: &PipelineId) -> (r: AgentError)
    ensures
        r matches AgentError::Capability(m) && m@ == "unknown pipeline: "@ + id.0@,
{
    AgentError::Capability(concat2("unknown pipeline: ", id.0.as_str()))
}

/// The event opening a stage: which agent, fed which payload kind.
pub fn stage_started(agent: &SubAgentId, input: PayloadKind) -> (r: AgentEvent)
    ensures
        r == (AgentEvent::StageStarted { agent: *agent, input }),
{
    AgentEvent::StageStarted { agent: agent.clone(), input }
}

/// The events closing a failed stage: the stage is marked failed before the terminal error, so
/// a UI closes its indicator instead of leaving it spinning.
pub fn stage_failed(agent: &SubAgentId, err: &AgentError) -> (r: Vec<AgentEvent>)
    ensures
        r@.len() == 2,
        r@[0] == (AgentEvent::StageFinished { agent: *agent, outcome: StageOutcome::Failure }),
        r@[1] matches AgentEvent::Error { message } && message@ == agent_error_text(*err),
{
    let finished = stage_finished(agent, false);
    vec![finished, AgentEvent::Error { message: err.message() }]
}

/// The events closing a successful stage: what it added (when anything), then its success.
pub fn stage_succeeded(agent: &SubAgentId, before: &[ArtifactKey], after: &[ArtifactKey]) -> (r: Vec<
    AgentEvent,
>)
    ensures
        ({
            let added = new_keys(keys_view(before@), keys_view(after@));
            &&& added.len() == 0 ==> r@ == seq![
                AgentEvent::StageFinished { agent: *agent, outcome: StageOutcome::Success },
            ]
            &&& added.len() > 0 ==> (r@.len() == 2 && (r@[0] matches AgentEvent::StageProduced {
                agent: a,
                keys,
            } && a == *agent && keys_view(keys@) == added.sort_by(key_order())) && r@[1] == (
            AgentEvent::StageFinished { agent: *agent, outcome: StageOutcome::Success }))
        }),
{
    let mut out: Vec<AgentEvent> = Vec::new();
    match stage_produced(agent, before, after) {
        Some(e) => out.push(e),
        None => {},
    }
    out.push(stage_finished(agent, true));
    proof {
        let added = new_keys(keys_view(before@), keys_view(after@));
        if added.len() == 0 {
            assert(out@ =~= seq![
                AgentEvent::StageFinished { agent: *agent, outcome: StageOutcome::Success },
            ]);
        }
    }
    out
}

/// The event closing a whole run: the assistant text when the run ended on a final answer.
pub fn run_finished(final_assistant: Option<&str>) -> (r: Option<AgentEvent>)
    ensures
        match final_assistant {
            Some(a) => r matches Some(AgentEvent::Finished { assistant }) && assistant@ == a@,
            None => r is None,
        },
{
    match final_assistant {
        Some(a) => Some(AgentEvent::Finished { assistant: to_owned_string(a) }),
        None => None,
    }
}


/// Entry `i` of `entries` carries key `k`.
pub open spec fn entry_keyed(entries: Seq<(ArtifactKey, String)>, k: (Seq<char>, Seq<char>)) -> spec_fn(
    int,
) -> bool {
    |i: int| key_view(entries[i].0) == k
}

/// The shown value carried under key `k` (that of the first entry with the key).
pub open spec fn shown_for(entries: Seq<(ArtifactKey, String)>, k: (Seq<char>, Seq<char>)) -> Seq<
    char,
> {
    match first_where(entries.len() as int, entry_keyed(entries, k)) {
        Some(i) => entries[i].1@,
        None => Seq::empty(),
    }
}

/// One material line: `[agent.name] value`, then a newline.
pub open spec fn material_line(k: (Seq<char>, Seq<char>), shown: Seq<char>) -> Seq<char> {
    "["@ + dotted(k.0, k.1) + "] "@ + shown + "\n"@
}

/// The material lines for keys `ks`, in that order.
pub open spec fn material_text(ks: Seq<(Seq<char>, Seq<char>)>, entries: Seq<(ArtifactKey, String)>) -> Seq<
    char,
>
    decreases ks.len(),
{
    if ks.len() == 0 {
        Seq::empty()
    } else {
        material_text(ks.drop_last(), entries) + material_line(ks.last(), shown_for(entries, ks.last()))
    }
}

/// The keys of the carried entries.
pub open spec fn entry_keys(entries: Seq<(ArtifactKey, String)>) -> Seq<ArtifactKey> {
    entries.map_values(|e: (ArtifactKey, String)| e.0)
}

/// The value shown for key `k`: the first entry carrying it.
fn shown_value<'a>(entries: &'a Vec<(ArtifactKey, String)>, k: &ArtifactKey) -> (r: &'a str)
    ensures
        r@ == shown_for(entries@, key_view(*k)),
{
    let ghost kv = key_view(*k);
    let mut i: usize = 0;
    while i < entries.len()
        invariant
            i <= entries.len(),
            kv == key_view(*k),
            forall|j: int| 0 <= j < i ==> !#[trigger] entry_keyed(entries@, kv)(j),
        decreases entries.len() - i,
    {
        if str_eq(entries[i].0.agent(), k.agent()) && str_eq(entries[i].0.name(), k.name()) {
            proof {
                lemma_first_where_some(entries@.len() as int, entry_keyed(entries@, kv), i as int);
            }
            return entries[i].1.as_str();
        }
        i += 1;
    }
    proof {
        lemma_first_where_none(entries@.len() as int, entry_keyed(entries@, kv));
        reveal_strlit("");
    }
    ""
}

/// The material a stage is handed from the artifacts carried into it: one line
/// `[agent.name] value` per artifact, in key order (producer, then slot name), where `value` is
/// the artifact's shown text.
pub fn render_material(entries: &Vec<(ArtifactKey, String)>) -> (r: String)
    ensures
        r@ == material_text(keys_view(entry_keys(entries@)).sort_by(key_order()), entries@),
{
    let mut keys: Vec<ArtifactKey> = Vec::new();
    let mut i: usize = 0;
    while i < entries.len()
        invariant
            i <= entries.len(),
            keys@ == entry_keys(entries@).take(i as int),
        decreases entries.len() - i,
    {
        keys.push(entries[i].0.clone());
        proof {
            assert(entry_keys(entries@).take(i as int + 1) =~= entry_keys(entries@).take(i as int).push(entries@[i as int].0));
        }
        i += 1;
    }
    proof {
        assert(entry_keys(entries@).take(entries@.len() as int) =~= entry_keys(entries@));
    }
    let sorted = sort_keys(keys);
    let ghost ks = keys_view(sorted@);
    let mut out = String::new();
    proof {
        assert(ks.take(0) =~= Seq::<(Seq<char>, Seq<char>)>::empty());
        assert(out@ =~= Seq::<char>::empty());
    }
    let mut j: usize = 0;
    while j < sorted.len()
        invariant
            j <= sorted.len(),
            ks == keys_view(sorted@),
            out@ == material_text(ks.take(j as int), entries@),
        decreases sorted.len() - j,
    {
        let k = &sorted[j];
        let shown = shown_value(entries, k);
        let ghost prev = out@;
        push_str(&mut out, "[");
        push_str(&mut out, k.agent());
        out.push('.');
        push_str(&mut out, k.name());
        push_str(&mut out, "] ");
        push_str(&mut out, shown);
        out.push('\n');
        proof {
            reveal_strlit("\n");
            let t = ks.take(j as int + 1);
            assert(t.drop_last() =~= ks.take(j as int));
            assert(t.last() == key_view(sorted@[j as int]));
            assert(out@ =~= prev + material_line(t.last(), shown@));
            assert(out@ =~= material_text(t, entries@));
        }
        j += 1;
    }
    proof {
        assert(ks.take(sorted@.len() as int) =~= ks);
    }
    out
}

/// The user turn a stage is asked: the prompt alone when no material was carried in, else the
/// prompt, a blank line, a `Material:` heading and the material.
pub fn stage_user_turn(prompt: &str, material: &str) -> (r: String)
    ensures
        material@.len() == 0 ==> r@ == prompt@,
        material@.len() > 0 ==> r@ == prompt@ + "\n\nMaterial:\n"@ + material@,
{
    if chars_vec(material).len() == 0 {
        return to_owned_string(prompt);
    }
    let mut s = concat2(prompt, "\n\nMaterial:\n");
    push_str(&mut s, material);
    s
}


/// No two carried entries share a key, as in the entries of one artifact map.
pub open spec fn entries_keyed_uniquely(s: Seq<(ArtifactKey, String)>) -> bool {
    forall|i: int, j: int|
        #![trigger s[i], s[j]]
        0 <= i < j < s.len() ==> key_view(s[i].0) != key_view(s[j].0)
}

/// With unique keys, the value shown for an entry's key is that entry's.
proof fn lemma_shown_for_entry(s: Seq<(ArtifactKey, String)>, i: int)
    requires
        entries_keyed_uniquely(s),
        0 <= i < s.len(),
    ensures
        shown_for(s, key_view(s[i].0)) == s[i].1@,
{
    let p = entry_keyed(s, key_view(s[i].0));
    assert forall|j: int| 0 <= j < i implies !#[trigger] p(j) by {
        assert(key_view(s[j].0) != key_view(s[i].0));
    }
    lemma_first_where_some(s.len() as int, p, i);
}

/// Listings with the same entries have the same keys.
proof fn lemma_keys_multiset(a: Seq<(ArtifactKey, String)>, b: Seq<(ArtifactKey, String)>)
    requires
        a.to_multiset() == b.to_multiset(),
    ensures
        keys_view(entry_keys(a)).to_multiset() == keys_view(entry_keys(b)).to_multiset(),
    decreases a.len(),
{
    broadcast use vstd::seq_lib::group_to_multiset_ensures;
    broadcast use vstd::multiset::group_multiset_axioms;

    if a.len() == 0 {
        vstd::seq_lib::to_multiset_len(a);
        vstd::seq_lib::to_multiset_len(b);
        assert(b.len() == 0);
        assert(keys_view(entry_keys(a)) =~= Seq::<(Seq<char>, Seq<char>)>::empty());
        assert(keys_view(entry_keys(b)) =~= Seq::<(Seq<char>, Seq<char>)>::empty());
    } else {
        let x = a.last();
        let a2 = a.drop_last();
        assert(a =~= a2.push(x));
        assert(a.contains(x)) by {
            assert(a[a.len() - 1] == x);
        }
        assert(a.to_multiset().count(x) > 0);
        assert(b.contains(x));
        let i = choose|i: int| 0 <= i < b.len() && b[i] == x;
        let b2 = b.remove(i);
        assert(a2.to_multiset() =~= a.to_multiset().remove(x));
        assert(b2.to_multiset() =~= b.to_multiset().remove(x));
        lemma_keys_multiset(a2, b2);
        let fx = key_view(x.0);
        assert(keys_view(entry_keys(a)) =~= keys_view(entry_keys(a2)).push(fx));
        assert(keys_view(entry_keys(b)) =~= keys_view(entry_keys(b2)).insert(i, fx));
        vstd::seq_lib::to_multiset_insert(keys_view(entry_keys(b2)), i, fx);
    }
}

/// Material over one key list agrees for listings that show the same value for each key.
proof fn lemma_material_text_agree(
    ks: Seq<(Seq<char>, Seq<char>)>,
    a: Seq<(ArtifactKey, String)>,
    b: Seq<(ArtifactKey, String)>,
)
    requires
        forall|i: int| 0 <= i < ks.len() ==> shown_for(a, #[trigger] ks[i]) == shown_for(b, ks[i]),
    ensures
        material_text(ks, a) == material_text(ks, b),
    decreases ks.len(),
{
    if ks.len() > 0 {
        let d = ks.drop_last();
        assert forall|i: int| 0 <= i < d.len() implies shown_for(a, #[trigger] d[i]) == shown_for(
            b,
            d[i],
        ) by {
            assert(d[i] == ks[i]);
        }
        lemma_material_text_agree(d, a, b);
        assert(ks.last() == ks[ks.len() - 1]);
    }
}

/// The material a stage is handed depends on the carried artifacts alone, not on the order in
/// which the artifact map is walked: two listings of one map render the same material.
pub proof fn law_material_ignores_carry_order(
    a: Seq<(ArtifactKey, String)>,
    b: Seq<(ArtifactKey, String)>,
)
    requires
        a.to_multiset() == b.to_multiset(),
        entries_keyed_uniquely(a),
        entries_keyed_uniquely(b),
    ensures
        material_text(keys_view(entry_keys(a)).sort_by(key_order()), a) == material_text(
            keys_view(entry_keys(b)).sort_by(key_order()),
            b,
        ),
{
    broadcast use vstd::seq_lib::group_to_multiset_ensures;

    let ka = keys_view(entry_keys(a));
    let kb = keys_view(entry_keys(b));
    lemma_keys_multiset(a, b);
    lemma_key_total();
    ka.lemma_sort_by_ensures(key_order());
    kb.lemma_sort_by_ensures(key_order());
    vstd::seq_lib::lemma_sorted_unique(ka.sort_by(key_order()), kb.sort_by(key_order()), key_order());
    let ks = ka.sort_by(key_order());
    assert forall|i: int| 0 <= i < ks.len() implies shown_for(a, #[trigger] ks[i]) == shown_for(
        b,
        ks[i],
    ) by {
        let k = ks[i];
        assert(ks.contains(k));
        assert(ka.contains(k));
        let ia = choose|ia: int| 0 <= ia < ka.len() && ka[ia] == k;
        assert(key_view(a[ia].0) == k);
        lemma_shown_for_entry(a, ia);
        assert(a.contains(a[ia]));
        assert(a.to_multiset().count(a[ia]) > 0);
        assert(b.contains(a[ia]));
        let ib = choose|ib: int| 0 <= ib < b.len() && b[ib] == a[ia];
        lemma_shown_for_entry(b, ib);
    }
    lemma_material_text_agree(ks, a, b);
}


/// Whether two payload kinds are the same.
fn same_kind(a: PayloadKind, b: PayloadKind) -> (r: bool)
    ensures
        r == (a == b),
{
    match (a, b) {
        (PayloadKind::Initial, PayloadKind::Initial) => true,
        (PayloadKind::Intermediate, PayloadKind::Intermediate) => true,
        (PayloadKind::Final, PayloadKind::Final) => true,
        _ => false,
    }
}

/// A stage's self-check on the payload it is handed: a kind outside its accept-set is refused
/// with a mismatch naming the set and the kind, never a panic.
pub fn check_accepts(accepts: &Vec<PayloadKind>, got: PayloadKind) -> (r: Result<(), AgentError>)
    ensures
        accepts@.contains(got) ==> r is Ok,
        !accepts@.contains(got) ==> (r matches Err(AgentError::Mismatch { expected, got: g })
            && expected@ == accepts@ && g == got),
{
    let mut copy: Vec<PayloadKind> = Vec::new();
    let mut i: usize = 0;
    while i < accepts.len()
        invariant
            i <= accepts.len(),
            copy@ == accepts@.take(i as int),
            forall|j: int| 0 <= j < i ==> accepts@[j] != got,
        decreases accepts.len() - i,
    {
        if same_kind(accepts[i], got) {
            proof {
                assert(accepts@[i as int] == got);
            }
            return Ok(());
        }
        copy.push(accepts[i]);
        proof {
            assert(accepts@.take(i as int + 1) =~= accepts@.take(i as int).push(accepts@[i as int]));
        }
        i += 1;
    }
    proof {
        assert(accepts@.take(accepts.len() as int) =~= accepts@);
    }
    Err(AgentError::Mismatch { expected: copy, got })
}

} // verus!
