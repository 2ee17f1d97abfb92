//! The decisions of an agent's tool-use loop: the turn budget, the transcript handed to the
//! model, which artifact slot each tool result fills, and what the model is told of each result.
//!
//! The model call and the tool calls themselves are awaited by the caller, which drives the loop:
//! `begin_turn`, one model call over `messages`, then either `finish` with the model's message or
//! `on_calls` followed by one `record` per dispatched call (see `find_tool` for the dispatch).

use vstd::prelude::*;

use crate::agent::payload::{find_tool, rejected_reply, steps_exhausted, tool_named_at, AgentError,
    ArtifactKey, MAX_STEPS};
use crate::search::first_where;
use crate::text::str_eq;

verus! {

/// What a tool call came back with.
pub enum ToolOutcome<V> {
    /// The call succeeded; the value fills the tool's target artifact slot.
    Produced(V),
    /// The call was rejected (bad arguments, failed validation): the reason goes back to the model
    /// so it can correct, and no artifact is recorded.
    Rejected { reason: String },
}

/// One message of the loop's transcript.
pub enum LoopMessage {
    /// The agent's instruction.
    System(String),
    /// The user's request.
    User(String),
    /// A batch of tool calls the model made, as `(call id, tool name)` pairs.
    ToolCalls(Vec<(String, String)>),
    /// The reply to one tool call.
    Tool { tool_call_id: String, content: String },
}

/// The identity of an artifact key: its `(agent, name)` halves.
pub open spec fn key_id(k: ArtifactKey) -> (Seq<char>, Seq<char>) {
    (k.agent_part(), k.name_part())
}

/// No two entries share a key.
pub open spec fn keys_unique<V>(s: Seq<(ArtifactKey, V)>) -> bool {
    forall|a: int, b: int|
        #![trigger s[a], s[b]]
        0 <= a < b < s.len() ==> key_id(s[a].0) != key_id(s[b].0)
}

/// The value recorded under key `k`, the latest entry winning.
pub open spec fn lookup<V>(s: Seq<(ArtifactKey, V)>, k: (Seq<char>, Seq<char>)) -> Option<V>
    decreases s.len(),
{
    if s.len() == 0 {
        None
    } else if key_id(s.last().0) == k {
        Some(s.last().1)
    } else {
        lookup(s.drop_last(), k)
    }
}

/// A prefix of a sequence with unique keys has unique keys.
proof fn lemma_unique_drop_last<V>(s: Seq<(ArtifactKey, V)>)
    requires
        keys_unique(s),
        s.len() > 0,
    ensures
        keys_unique(s.drop_last()),
{
    let t = s.drop_last();
    assert forall|a: int, b: int| 0 <= a < b < t.len() implies key_id(t[a].0) != key_id(t[b].0) by {
        assert(t[a] == s[a] && t[b] == s[b]);
    }
}

/// Replacing the entry whose key is that of `e` by `e` changes the lookup of that key alone.
proof fn lemma_lookup_update<V>(s: Seq<(ArtifactKey, V)>, i: int, e: (ArtifactKey, V), k: (
    Seq<char>,
    Seq<char>,
))
    requires
        keys_unique(s),
        0 <= i < s.len(),
        key_id(e.0) == key_id(s[i].0),
    ensures
        lookup(s.update(i, e), k) == (if k == key_id(e.0) {
            Some(e.1)
        } else {
            lookup(s, k)
        }),
    decreases s.len(),
{
    let n = s.len();
    let u = s.update(i, e);
    if i == n - 1 {
        assert(u.drop_last() =~= s.drop_last());
        assert(u.last() == e);
    } else {
        assert(u.drop_last() =~= s.drop_last().update(i, e));
        assert(u.last() == s.last());
        assert(key_id(s[i].0) != key_id(s[n - 1].0));
        lemma_unique_drop_last(s);
        assert(s.drop_last()[i] == s[i]);
        lemma_lookup_update(s.drop_last(), i, e, k);
    }
}

/// Puts `v` under `k`: the entry with `k`'s key takes the new value, or a new entry is appended.
pub fn put_artifact<V>(entries: &mut Vec<(ArtifactKey, V)>, k: ArtifactKey, v: V)
    requires
        keys_unique(old(entries)@),
    ensures
        keys_unique(final(entries)@),
        lookup(final(entries)@, key_id(k)) == Some(v),
        forall|other: (Seq<char>, Seq<char>)|
            other != key_id(k) ==> #[trigger] lookup(final(entries)@, other) == lookup(
                old(entries)@,
                other,
            ),
{
    let ghost before = entries@;
    let ghost kt = key_id(k);
    let mut i: usize = 0;
    let n = entries.len();
    let mut found = false;
    while i < n
        invariant_except_break
            !found,
        invariant
            n == entries@.len(),
            before == entries@,
            kt == key_id(k),
            i <= n,
            forall|j: int| 0 <= j < i ==> key_id(#[trigger] before[j].0) != kt,
        ensures
            found ==> i < n && key_id(before[i as int].0) == kt,
            !found ==> i == n,
        decreases n - i,
    {
        if str_eq(entries[i].0.agent(), k.agent()) && str_eq(entries[i].0.name(), k.name()) {
            found = true;
            break;
        }
        i += 1;
    }
    let ghost e = (k, v);
    if found {
        entries.set(i, (k, v));
        proof {
            assert(entries@ == before.update(i as int, e));
            assert forall|a: int, b: int| 0 <= a < b < entries@.len() implies key_id(
                entries@[a].0,
            ) != key_id(entries@[b].0) by {
                assert(key_id(entries@[a].0) == key_id(before[a].0));
                assert(key_id(entries@[b].0) == key_id(before[b].0));
            }
            assert forall|o: (Seq<char>, Seq<char>)| #[trigger] lookup(entries@, o) == (if o == kt {
                Some(e.1)
            } else {
                lookup(before, o)
            }) by {
                lemma_lookup_update(before, i as int, e, o);
            }
        }
    } else {
        entries.push((k, v));
        proof {
            assert(entries@ == before.push(e));
            assert(entries@.drop_last() =~= before);
            assert forall|a: int, b: int| 0 <= a < b < entries@.len() implies key_id(
                entries@[a].0,
            ) != key_id(entries@[b].0) by {
                if b == before.len() {
                    assert(entries@[a] == before[a]);
                    assert(key_id(before[a].0) != kt);
                    assert(entries@[b] == e);
                } else {
                    assert(entries@[a] == before[a] && entries@[b] == before[b]);
                }
            }
        }
    }
}

/// The value a stage's output holds under key `k`: its own captured message under that key, else
/// the latest value it produced there, else the value carried in.
pub open spec fn stage_value<V>(
    incoming: Seq<(ArtifactKey, V)>,
    produced: Seq<(ArtifactKey, V)>,
    message: Option<((Seq<char>, Seq<char>), V)>,
    k: (Seq<char>, Seq<char>),
) -> Option<V> {
    match message {
        Some((mk, mv)) if mk == k => Some(mv),
        _ => match lookup(produced, k) {
            Some(v) => Some(v),
            None => lookup(incoming, k),
        },
    }
}

/// A stage's output artifacts: everything carried in, then every artifact it produced (a produced
/// value replacing a carried one under the same key), then, when it captures its message, that
/// message under `{agent}.message`.
pub fn stage_artifacts<V>(
    incoming: Vec<(ArtifactKey, V)>,
    produced: Vec<(ArtifactKey, V)>,
    agent: &str,
    message: Option<V>,
) -> (r: Vec<(ArtifactKey, V)>)
    requires
        keys_unique(incoming@),
    ensures
        keys_unique(r@),
        forall|k: (Seq<char>, Seq<char>)|
            #[trigger] lookup(r@, k) == stage_value(
                incoming@,
                produced@,
                match message {
                    Some(m) => Some(((agent@, "message"@), m)),
                    None => None,
                },
                k,
            ),
{
    let ghost orig = produced@;
    let ghost inc = incoming@;
    assert(orig.len() == produced.len());
    let mut out = incoming;
    let mut rest = produced;
    proof {
        assert(orig.take(0) =~= Seq::<(ArtifactKey, V)>::empty());
        assert(rest@ =~= orig.skip(0));
    }
    let mut i: usize = 0;
    while rest.len() > 0
        invariant
            i <= orig.len(),
            orig.len() <= usize::MAX,
            rest@ == orig.skip(i as int),
            keys_unique(out@),
            forall|k: (Seq<char>, Seq<char>)|
                #[trigger] lookup(out@, k) == (match lookup(orig.take(i as int), k) {
                    Some(v) => Some(v),
                    None => lookup(inc, k),
                }),
        decreases rest.len(),
    {
        let (k, v) = rest.remove(0);
        let ghost prev = out@;
        proof {
            assert(orig[i as int] == (k, v));
        }
        put_artifact(&mut out, k, v);
        proof {
            let t = orig.take(i as int + 1);
            assert(t.drop_last() =~= orig.take(i as int));
            assert(t.last() == orig[i as int]);
            assert(rest@ =~= orig.skip(i as int + 1));
        }
        i += 1;
    }
    proof {
        assert(orig.take(i as int) =~= orig);
    }
    match message {
        Some(m) => {
            let key = ArtifactKey::message(agent);
            put_artifact(&mut out, key, m);
        },
        None => {},
    }
    out
}

/// A stage never drops what it was handed: every artifact key carried in is still present in its
/// output.
pub proof fn law_stage_output_keeps_carried_artifacts<V>(
    incoming: Seq<(ArtifactKey, V)>,
    produced: Seq<(ArtifactKey, V)>,
    message: Option<((Seq<char>, Seq<char>), V)>,
    k: (Seq<char>, Seq<char>),
)
    requires
        lookup(incoming, k) is Some,
    ensures
        stage_value(incoming, produced, message, k) is Some,
{
}

/// Where the value under `k` sits: the last entry with `k`'s key, if any.
pub fn find_artifact<V>(entries: &Vec<(ArtifactKey, V)>, k: &ArtifactKey) -> (r: Option<usize>)
    ensures
        r is None <==> lookup(entries@, key_id(*k)) is None,
        r matches Some(i) ==> i < entries@.len() && lookup(entries@, key_id(*k)) == Some(
            entries@[i as int].1,
        ) && key_id(entries@[i as int].0) == key_id(*k),
{
    let ghost kt = key_id(*k);
    let mut i: usize = entries.len();
    proof {
        assert(entries@.take(i as int) =~= entries@);
    }
    while i > 0
        invariant
            i <= entries@.len(),
            kt == key_id(*k),
            lookup(entries@, kt) == lookup(entries@.take(i as int), kt),
        decreases i,
    {
        let j = i - 1;
        proof {
            let t = entries@.take(i as int);
            assert(t.drop_last() =~= entries@.take(j as int));
            assert(t.last() == entries@[j as int]);
        }
        if str_eq(entries[j].0.agent(), k.agent()) && str_eq(entries[j].0.name(), k.name()) {
            return Some(j);
        }
        i = j;
    }
    proof {
        assert(entries@.take(0) =~= Seq::<(ArtifactKey, V)>::empty());
    }
    None
}

/// The state of one agent's tool-use loop.
pub struct ToolUseLoop<V> {
    turns: usize,
    messages: Vec<LoopMessage>,
    produced: Vec<(ArtifactKey, V)>,
    pending: Vec<(String, String)>,
}

impl<V> ToolUseLoop<V> {
    /// The calls of the model's latest batch not yet dispatched, in order, as `(id, name)`.
    pub closed spec fn pending_calls(self) -> Seq<(String, String)> {
        self.pending@
    }

    #[verifier::type_invariant]
    spec fn bounded_and_keyed(self) -> bool {
        &&& self.turns <= MAX_STEPS
        &&& keys_unique(self.produced@)
    }

    /// How many model turns have begun.
    pub closed spec fn turns_taken(self) -> nat {
        self.turns as nat
    }

    /// The transcript handed to the model.
    pub closed spec fn transcript(self) -> Seq<LoopMessage> {
        self.messages@
    }

    /// The recorded artifacts, one entry per key, in first-recorded order.
    pub closed spec fn produced_entries(self) -> Seq<(ArtifactKey, V)> {
        self.produced@
    }

    /// The artifact recorded under `k`.
    pub open spec fn artifact(self, k: (Seq<char>, Seq<char>)) -> Option<V> {
        lookup(self.produced_entries(), k)
    }

    /// A loop for an agent with instruction `system`, asked `user`: no turn taken, nothing
    /// recorded, and the transcript is the instruction then the request.
    pub fn new(system: String, user: String) -> (r: Self)
        ensures
            r.turns_taken() == 0,
            r.transcript() == seq![LoopMessage::System(system), LoopMessage::User(user)],
            r.produced_entries().len() == 0,
            r.pending_calls().len() == 0,
    {
        let mut messages: Vec<LoopMessage> = Vec::new();
        messages.push(LoopMessage::System(system));
        messages.push(LoopMessage::User(user));
        ToolUseLoop { turns: 0, messages, produced: Vec::new(), pending: Vec::new() }
    }

    /// The transcript to hand to the model.
    pub fn messages(&self) -> (r: &Vec<LoopMessage>)
        ensures
            r@ == self.transcript(),
    {
        &self.messages
    }

    /// Takes one more model turn if the budget allows; after `MAX_STEPS` turns the loop fails.
    pub fn begin_turn(&mut self) -> (r: Result<(), AgentError>)
        ensures
            old(self).turns_taken() < MAX_STEPS ==> r is Ok && final(self).turns_taken()
                == old(self).turns_taken() + 1,
            old(self).turns_taken() >= MAX_STEPS ==> (r matches Err(AgentError::Capability(m))
                && m@ == "tool-use loop exceeded max steps"@) && final(self).turns_taken()
                == old(self).turns_taken(),
            final(self).turns_taken() <= MAX_STEPS,
            final(self).transcript() == old(self).transcript(),
            final(self).produced_entries() == old(self).produced_entries(),
            final(self).pending_calls() == old(self).pending_calls(),
    {
        proof {
            use_type_invariant(&*self);
        }
        if self.turns >= MAX_STEPS {
            return Err(steps_exhausted());
        }
        self.turns = self.turns + 1;
        Ok(())
    }

    /// The model answered with a batch of tool calls: the batch joins the transcript and becomes
    /// the calls to dispatch, in order.
    pub fn on_calls(&mut self, calls: Vec<(String, String)>)
        ensures
            final(self).transcript() == old(self).transcript().push(LoopMessage::ToolCalls(calls)),
            final(self).turns_taken() == old(self).turns_taken(),
            final(self).produced_entries() == old(self).produced_entries(),
            final(self).pending_calls().len() == calls@.len(),
            forall|j: int|
                0 <= j < calls@.len() ==> (#[trigger] final(self).pending_calls()[j]).0@
                    == calls@[j].0@ && final(self).pending_calls()[j].1@ == calls@[j].1@,
    {
        let mut copy: Vec<(String, String)> = Vec::new();
        let mut i: usize = 0;
        while i < calls.len()
            invariant
                i <= calls.len(),
                copy@.len() == i,
                forall|j: int| 0 <= j < i ==> (#[trigger] copy@[j]).0@ == calls@[j].0@ && copy@[j].1@
                    == calls@[j].1@,
            decreases calls.len() - i,
        {
            let id = calls[i].0.clone();
            let name = calls[i].1.clone();
            copy.push((id, name));
            i += 1;
        }
        self.push_message(LoopMessage::ToolCalls(calls));
        proof {
            use_type_invariant(&*self);
        }
        self.pending = copy;
    }

    /// Dispatches the next pending call to the agent's tool of that name (see `find_tool`):
    /// `Some((tool index, call id))`, the call leaving the pending list; `None` once the batch is
    /// done. A call to a tool outside the agent's set fails with `UnknownTool` and abandons the
    /// rest of the batch, so no later call of it runs.
    pub fn dispatch(&mut self, names: &[String]) -> (r: Result<Option<(usize, String)>, AgentError>)
        ensures
            final(self).transcript() == old(self).transcript(),
            final(self).turns_taken() == old(self).turns_taken(),
            final(self).produced_entries() == old(self).produced_entries(),
            old(self).pending_calls().len() == 0 ==> r == Ok::<Option<(usize, String)>, AgentError>(
                None,
            ) && final(self).pending_calls() == old(self).pending_calls(),
            old(self).pending_calls().len() > 0 ==> {
                let c = old(self).pending_calls()[0];
                match first_where(names@.len() as int, tool_named_at(names@, c.1@)) {
                    Some(i) => r matches Ok(Some((t, id))) && t == i && id@ == c.0@
                        && final(self).pending_calls() == old(self).pending_calls().drop_first(),
                    None => r matches Err(AgentError::UnknownTool(n)) && n@ == c.1@
                        && final(self).pending_calls().len() == 0,
                }
            },
    {
        proof {
            use_type_invariant(&*self);
        }
        if self.pending.len() == 0 {
            return Ok(None);
        }
        let ghost before = self.pending@;
        let mut rest: Vec<(String, String)> = Vec::new();
        std::mem::swap(&mut rest, &mut self.pending);
        let (id, name) = rest.remove(0);
        proof {
            assert(rest@ =~= before.drop_first());
            assert(id == before[0].0 && name == before[0].1);
            assert(names@.len() == names.len());
            if first_where(names@.len() as int, tool_named_at(names@, name@)) is Some {
                crate::search::lemma_first_where_is_first(names@.len() as int, tool_named_at(names@, name@));
            }
        }
        match find_tool(names, name.as_str()) {
            Ok(i) => {
                self.pending = rest;
                assert(self.pending@ == before.drop_first());
                Ok(Some((i, id)))
            },
            Err(e) => {
                assert(self.pending@.len() == 0);
                Err(e)
            },
        }
    }

    /// Appends one message to the transcript.
    fn push_message(&mut self, m: LoopMessage)
        ensures
            final(self).transcript() == old(self).transcript().push(m),
            final(self).pending_calls() == old(self).pending_calls(),
            final(self).turns_taken() == old(self).turns_taken(),
            final(self).produced_entries() == old(self).produced_entries(),
    {
        proof {
            use_type_invariant(&*self);
        }
        let mut messages: Vec<LoopMessage> = Vec::new();
        std::mem::swap(&mut messages, &mut self.messages);
        messages.push(m);
        self.messages = messages;
    }

    /// Records the outcome of call `call_id` to a tool whose results fill `target`. A produced
    /// value fills the slot (replacing an earlier value there) and the model is shown `shown`,
    /// the value's text; a rejection records nothing and the model is shown the reason.
    pub fn record(&mut self, target: ArtifactKey, call_id: String, outcome: ToolOutcome<V>, shown: String)
        ensures
            final(self).turns_taken() == old(self).turns_taken(),
            final(self).pending_calls() == old(self).pending_calls(),
            final(self).transcript().drop_last() == old(self).transcript(),
            final(self).transcript().len() == old(self).transcript().len() + 1,
            match outcome {
                ToolOutcome::Produced(v) => {
                    &&& final(self).transcript().last() == (LoopMessage::Tool {
                        tool_call_id: call_id,
                        content: shown,
                    })
                    &&& final(self).artifact(key_id(target)) == Some(v)
                    &&& forall|k: (Seq<char>, Seq<char>)|
                        k != key_id(target) ==> #[trigger] final(self).artifact(k) == old(
                            self,
                        ).artifact(k)
                },
                ToolOutcome::Rejected { reason } => {
                    &&& final(self).transcript().last() matches LoopMessage::Tool {
                        tool_call_id,
                        content,
                    }
                    &&& tool_call_id == call_id
                    &&& content@ == "REJECTED: "@ + reason@
                    &&& final(self).produced_entries() == old(self).produced_entries()
                },
            },
    {
        proof {
            use_type_invariant(&*self);
        }
        match outcome {
            ToolOutcome::Rejected { reason } => {
                let content = rejected_reply(reason.as_str());
                self.push_message(LoopMessage::Tool { tool_call_id: call_id, content });
            },
            ToolOutcome::Produced(v) => {
                let mut entries: Vec<(ArtifactKey, V)> = Vec::new();
                std::mem::swap(&mut entries, &mut self.produced);
                put_artifact(&mut entries, target, v);
                self.produced = entries;
                self.push_message(LoopMessage::Tool { tool_call_id: call_id, content: shown });
            },
        }
    }

    /// The model answered with a message: the loop ends with that message and the artifacts
    /// recorded on the way.
    pub fn finish(self, text: String) -> (r: (String, Vec<(ArtifactKey, V)>))
        ensures
            r.0 == text,
            r.1@ == self.produced_entries(),
            keys_unique(r.1@),
    {
        proof {
            use_type_invariant(&self);
        }
        (text, self.produced)
    }
}

} // verus!
