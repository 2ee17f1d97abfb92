//! The LLM connector's tool-use loop, as far as it decides: the events its answer stream reports,
//! the re-assembly of tool calls streamed in fragments, and how a consumer folds the stream into
//! one answer. Talking to the model and the MCP server is the caller's part.

use vstd::prelude::*;

use crate::text::{push_str, to_owned_string};

verus! {

/// One event of the connector's answer stream.
#[derive(Debug, Clone, PartialEq, Eq)]
pub enum LlmEvent {
    /// A token fragment to append to the answer.
    Token(String),
    /// The tokens so far were intermediate; the answer buffer restarts.
    Clear,
    /// A tool call was made (arguments hashed).
    ToolCalled { name: String, args_hash: String },
    /// A tool call returned `bytes` bytes.
    ToolResult { name: String, bytes: usize, ok: bool },
    /// The model produced its final answer and finished cleanly.
    Done,
    /// Terminated with an error, reported in-band.
    Error(String),
}

/// The most model turns the tool-use loop runs before giving up.
pub const MAX_ITERATIONS: u32 = 16;

/// The error reported when the loop runs out of turns.
pub open spec fn non_convergence_text() -> Seq<char> {
    "agent did not reach a final answer within 16 iterations"@
}

/// The error reported when the loop runs out of turns.
pub fn non_convergence_error() -> (r: String)
    ensures
        r@ == non_convergence_text(),
{
    to_owned_string("agent did not reach a final answer within 16 iterations")
}

/// One in-flight tool call, re-assembled from streamed fragments.
#[derive(Debug, Clone, Default, PartialEq, Eq)]
pub struct ToolSlot {
    /// The call id, sent once.
    pub id: Option<String>,
    /// The function name, sent once.
    pub name: Option<String>,
    /// The arguments, streamed in fragments.
    pub arguments: String,
}

/// A fully re-assembled tool call ready for execution.
#[derive(Debug, Clone, PartialEq, Eq)]
pub struct ResolvedToolCall {
    pub id: String,
    pub name: String,
    pub arguments: String,
}

/// A slot's view: `(id, name, arguments)`.
pub type SlotView = (Option<Seq<char>>, Option<Seq<char>>, Seq<char>);

/// The view of a slot.
pub open spec fn slot_view(s: ToolSlot) -> SlotView {
    (
        match s.id {
            Some(i) => Some(i@),
            None => None,
        },
        match s.name {
            Some(n) => Some(n@),
            None => None,
        },
        s.arguments@,
    )
}

/// A slot after one fragment: a present id or name replaces the old one, arguments append.
pub open spec fn slot_after(
    s: SlotView,
    id: Option<Seq<char>>,
    name: Option<Seq<char>>,
    args: Option<Seq<char>>,
) -> SlotView {
    (
        match id {
            Some(i) => Some(i),
            None => s.0,
        },
        match name {
            Some(n) => Some(n),
            None => s.1,
        },
        match args {
            Some(a) => s.2 + a,
            None => s.2,
        },
    )
}

/// The empty slot a new index starts from.
pub open spec fn empty_slot() -> SlotView {
    (None, None, Seq::empty())
}

/// The optional string's view.
pub open spec fn text_of(o: Option<String>) -> Option<Seq<char>> {
    match o {
        Some(s) => Some(s@),
        None => None,
    }
}

/// Accumulates streamed tool-call fragments by their index, in index order.
#[derive(Debug)]
pub struct ToolCallAccumulator {
    slots: Vec<(u32, ToolSlot)>,
}

impl ToolCallAccumulator {
    /// The slots by index.
    pub open spec fn slot_map(self) -> Map<u32, SlotView> {
        Map::new(|j: u32| self.slot(j) is Some, |j: u32| self.slot(j)->0)
    }

    /// Indices are kept strictly increasing.
    #[verifier::type_invariant]
    spec fn ordered(self) -> bool {
        forall|a: int, b: int|
            0 <= a < b < self.slots@.len() ==> (#[trigger] self.slots@[a]).0 < (
            #[trigger] self.slots@[b]).0
    }

    /// The slots in index order, as `(index, slot)` views.
    pub closed spec fn entries(self) -> Seq<(u32, SlotView)> {
        self.slots@.map_values(|e: (u32, ToolSlot)| (e.0, slot_view(e.1)))
    }

    /// The slot at `index`, if one was started.
    pub open spec fn slot(self, index: u32) -> Option<SlotView> {
        slot_of(self.entries(), index)
    }

    /// No fragments yet.
    pub fn new() -> (r: Self)
        ensures
            r.entries().len() == 0,
    {
        let r = ToolCallAccumulator { slots: Vec::new() };
        assert(r.entries() =~= Seq::<(u32, SlotView)>::empty());
        r
    }

    /// Folds one fragment into the slot at `index` (starting it when new): a present id or name
    /// replaces the slot's, present arguments append to its arguments. Other slots are untouched.
    #[verifier::rlimit(80)]
    #[verifier::spinoff_prover]
    pub fn push(
        &mut self,
        index: u32,
        id: Option<String>,
        name: Option<String>,
        arguments: Option<String>,
    )
        ensures
            final(self).slot(index) == Some(
                slot_after(
                    match old(self).slot(index) {
                        Some(s) => s,
                        None => empty_slot(),
                    },
                    text_of(id),
                    text_of(name),
                    text_of(arguments),
                ),
            ),
            forall|j: u32| j != index ==> #[trigger] final(self).slot(j) == old(self).slot(j),
    {
        proof {
            use_type_invariant(&*self);
        }
        let ghost before = self.entries();
        proof {
            assert forall|a: int, b: int| 0 <= a < b < before.len() implies (#[trigger] before[a]).0
                < (#[trigger] before[b]).0 by {
                assert(before[a].0 == self.slots@[a].0);
                assert(before[b].0 == self.slots@[b].0);
            }
        }
        let ghost tid = text_of(id);
        let ghost tname = text_of(name);
        let ghost targs = text_of(arguments);
        let mut k: usize = 0;
        while k < self.slots.len() && self.slots[k].0 < index
            invariant
                k <= self.slots.len(),
                forall|j: int| 0 <= j < k ==> (#[trigger] self.slots@[j]).0 < index,
            decreases self.slots.len() - k,
        {
            k += 1;
        }
        let mut slots = Vec::new();
        std::mem::swap(&mut slots, &mut self.slots);
        let ghost old_slots = slots@;
        let found = k < slots.len() && slots[k].0 == index;
        proof {
            if !found {
                assert forall|j: int| 0 <= j < old_slots.len() implies #[trigger] old_slots[j].0
                    != index by {
                    if j >= k {
                        if j > k {
                            assert(old_slots[k as int].0 < old_slots[j].0);
                        }
                    }
                }
            }
        }
        if !found {
            slots.insert(k, (index, ToolSlot { id: None, name: None, arguments: String::new() }));
        }
        let ghost mid = slots@;
        let mut entry = slots.remove(k);
        let ghost start_view = slot_view(entry.1);
        proof {
            if found {
                assert(start_view == before[k as int].1);
            } else {
                assert(start_view == empty_slot());
            }
        }
        match id {
            Some(i) => entry.1.id = Some(i),
            None => {},
        }
        match name {
            Some(n) => entry.1.name = Some(n),
            None => {},
        }
        match arguments {
            Some(a) => push_str(&mut entry.1.arguments, a.as_str()),
            None => {},
        }
        assert(slot_view(entry.1) == slot_after(start_view, tid, tname, targs));
        slots.insert(k, entry);
        proof {
            assert(slots@ =~= mid.update(k as int, entry));
            assert forall|a: int, b: int|
                0 <= a < b < slots@.len() implies (#[trigger] slots@[a]).0 < (
                #[trigger] slots@[b]).0 by {
                if !found {
                    if a < k && b > k {
                        assert(slots@[b] == old_slots[b - 1]);
                        if a < b - 1 {
                            assert(old_slots[a].0 < old_slots[b - 1].0);
                        }
                    } else if a > k {
                        assert(slots@[a] == old_slots[a - 1]);
                        assert(slots@[b] == old_slots[b - 1]);
                        assert(old_slots[a - 1].0 < old_slots[b - 1].0);
                    } else if a < k && b < k {
                        assert(old_slots[a].0 < old_slots[b].0);
                    } else if a == k as int {
                        assert(slots@[b] == old_slots[b - 1]);
                    }
                } else {
                    if a != k && b != k {
                        assert(old_slots[a].0 < old_slots[b].0);
                    } else if a == k {
                        assert(old_slots[a].0 < old_slots[b].0);
                    } else {
                        assert(old_slots[a].0 < old_slots[b].0);
                    }
                }
            }
        }
        self.slots = slots;
        proof {
            let after = self.entries();
            assert(after[k as int].0 == index);
            assert(after[k as int].1 == slot_after(start_view, tid, tname, targs));
            if found {
                assert forall|j: int| 0 <= j < before.len() && j != k implies #[trigger] after[j]
                    == before[j] by {}
            } else {
                assert forall|j: int| 0 <= j < k implies #[trigger] after[j] == before[j] by {}
                assert forall|j: int| k < j < after.len() implies #[trigger] after[j] == before[j
                    - 1] by {}
                assert forall|j: int| 0 <= j < before.len() implies #[trigger] before[j].0
                    != index by {
                    assert(before[j].0 == old_slots[j].0);
                }
            }
            assert forall|a: int, b: int| 0 <= a < b < after.len() implies (#[trigger] after[a]).0
                < (#[trigger] after[b]).0 by {
                assert(after[a].0 == slots@[a].0);
                assert(after[b].0 == slots@[b].0);
            }
            lemma_slot_lookup(after, before, index, k as int, found);
        }
    }

    /// The id the slot at `index` carries, if any.
    pub fn id_of(&self, index: u32) -> (r: Option<String>)
        ensures
            text_of(r) == match self.slot(index) {
                Some(s) => s.0,
                None => None,
            },
    {
        proof {
            use_type_invariant(self);
        }
        let ghost es = self.entries();
        proof {
            assert forall|a: int, b: int| 0 <= a < b < es.len() implies (#[trigger] es[a]).0 < (
            #[trigger] es[b]).0 by {
                assert(es[a].0 == self.slots@[a].0);
                assert(es[b].0 == self.slots@[b].0);
            }
        }
        let mut k: usize = 0;
        while k < self.slots.len()
            invariant
                k <= self.slots.len(),
                es == self.entries(),
                forall|j: int| 0 <= j < k ==> (#[trigger] es[j]).0 != index,
                forall|a: int, b: int| 0 <= a < b < es.len() ==> (#[trigger] es[a]).0 < (
                #[trigger] es[b]).0,
            decreases self.slots.len() - k,
        {
            if self.slots[k].0 == index {
                proof {
                    lemma_slot_of_at(es, k as int);
                }
                return match &self.slots[k].1.id {
                    Some(i) => Some(i.clone()),
                    None => None,
                };
            }
            k += 1;
        }
        None
    }

    /// The completed tool calls in index order; a slot that never received both an id and a name
    /// cannot be executed and is dropped.
    pub fn assemble(self) -> (r: Vec<ResolvedToolCall>)
        ensures
            calls_view(r@) == assembled(self.entries()),
    {
        proof {
            use_type_invariant(&self);
        }
        let ghost es = self.entries();
        let mut out: Vec<ResolvedToolCall> = Vec::new();
        let mut i: usize = 0;
        while i < self.slots.len()
            invariant
                i <= self.slots.len(),
                es == self.slots@.map_values(|e: (u32, ToolSlot)| (e.0, slot_view(e.1))),
                calls_view(out@) == assembled(es.take(i as int)),
            decreases self.slots.len() - i,
        {
            proof {
                assert(es.take(i as int + 1).drop_last() =~= es.take(i as int));
                assert(es.take(i as int + 1).last() == es[i as int]);
            }
            let slot = &self.slots[i].1;
            match (&slot.id, &slot.name) {
                (Some(id), Some(name)) => {
                    let call = ResolvedToolCall {
                        id: id.clone(),
                        name: name.clone(),
                        arguments: slot.arguments.clone(),
                    };
                    let ghost before = calls_view(out@);
                    out.push(call);
                    assert(calls_view(out@) =~= before.push((id@, name@, slot.arguments@)));
                },
                _ => {},
            }
            i += 1;
        }
        assert(es.take(self.slots.len() as int) =~= es);
        out
    }
}

/// A resolved call's view: `(id, name, arguments)`.
pub open spec fn calls_view(v: Seq<ResolvedToolCall>) -> Seq<(Seq<char>, Seq<char>, Seq<char>)> {
    v.map_values(|c: ResolvedToolCall| (c.id@, c.name@, c.arguments@))
}

/// The executable calls among the slots, in index order.
pub open spec fn assembled(es: Seq<(u32, SlotView)>) -> Seq<(Seq<char>, Seq<char>, Seq<char>)>
    decreases es.len(),
{
    if es.len() == 0 {
        Seq::empty()
    } else {
        let prev = assembled(es.drop_last());
        let s = es.last().1;
        match (s.0, s.1) {
            (Some(id), Some(name)) => prev.push((id, name, s.2)),
            _ => prev,
        }
    }
}

/// In strictly ordered entries, the slot of an entry's index is that entry's slot.
proof fn lemma_slot_of_at(es: Seq<(u32, SlotView)>, k: int)
    requires
        forall|a: int, b: int| 0 <= a < b < es.len() ==> (#[trigger] es[a]).0 < (#[trigger] es[b]).0,
        0 <= k < es.len(),
    ensures
        slot_of(es, es[k].0) == Some(es[k].1),
{
    let j = es[k].0;
    assert(0 <= k < es.len() && es[k].0 == j);
    let c = choose|c: int| 0 <= c < es.len() && es[c].0 == j;
    if c < k {
        assert(es[c].0 < es[k].0);
    } else if c > k {
        assert(es[k].0 < es[c].0);
    }
}

/// Looking a slot up after [`ToolCallAccumulator::push`]'s splice.
proof fn lemma_slot_lookup(
    after: Seq<(u32, SlotView)>,
    before: Seq<(u32, SlotView)>,
    index: u32,
    k: int,
    found: bool,
)
    requires
        forall|a: int, b: int| 0 <= a < b < after.len() ==> (#[trigger] after[a]).0 < (#[trigger] after[b]).0,
        forall|a: int, b: int| 0 <= a < b < before.len() ==> (#[trigger] before[a]).0 < (#[trigger] before[b]).0,
        0 <= k < after.len(),
        after[k].0 == index,
        found ==> after.len() == before.len() && k < before.len() && before[k].0 == index && forall|j: int|
            0 <= j < before.len() && j != k ==> #[trigger] after[j] == before[j],
        !found ==> after.len() == before.len() + 1 && (forall|j: int|
            0 <= j < k ==> #[trigger] after[j] == before[j]) && (forall|j: int|
            k < j < after.len() ==> #[trigger] after[j] == before[j - 1]) && (forall|j: int|
            0 <= j < before.len() ==> #[trigger] before[j].0 != index),
    ensures
        forall|j: u32| j != index ==> slot_of(after, j) == slot_of(before, j),
        slot_of(after, index) == Some(after[k].1),
        found ==> slot_of(before, index) == Some(before[k].1),
        !found ==> slot_of(before, index) is None,
{
    lemma_slot_of_at(after, k);
    if found {
        lemma_slot_of_at(before, k);
    }
    assert forall|j: u32| j != index implies slot_of(after, j) == slot_of(before, j) by {
        if exists|kb: int| 0 <= kb < before.len() && before[kb].0 == j {
            let kb = choose|kb: int| 0 <= kb < before.len() && before[kb].0 == j;
            let ka = if found || kb < k {
                kb
            } else {
                kb + 1
            };
            assert(after[ka] == before[kb]);
            lemma_slot_of_at(before, kb);
            lemma_slot_of_at(after, ka);
        } else {
            assert forall|ka: int| 0 <= ka < after.len() implies after[ka].0 != j by {
                if ka != k {
                    if found || ka < k {
                        assert(after[ka] == before[ka]);
                    } else {
                        assert(after[ka] == before[ka - 1]);
                    }
                }
            }
        }
    }
}

/// The slot with index `j` among `es`, if any.
pub open spec fn slot_of(es: Seq<(u32, SlotView)>, j: u32) -> Option<SlotView> {
    if exists|k: int| 0 <= k < es.len() && es[k].0 == j {
        let k = choose|k: int| 0 <= k < es.len() && es[k].0 == j;
        Some(es[k].1)
    } else {
        None
    }
}

/// Where folding a stream prefix into an answer stands: still reading (with the answer so far),
/// or finished with the answer or the error.
pub enum AnswerState {
    Reading(Seq<char>),
    Finished(Result<Seq<char>, Seq<char>>),
}

/// Folds events into the answer: tokens append, `Clear` drops the preamble, `Done` finishes with
/// the answer, an error finishes with the error; tool events leave the answer as it is.
pub open spec fn answer_fold(events: Seq<LlmEvent>) -> AnswerState
    decreases events.len(),
{
    if events.len() == 0 {
        AnswerState::Reading(Seq::empty())
    } else {
        match answer_fold(events.drop_last()) {
            AnswerState::Finished(r) => AnswerState::Finished(r),
            AnswerState::Reading(out) => match events.last() {
                LlmEvent::Token(t) => AnswerState::Reading(out + t@),
                LlmEvent::Clear => AnswerState::Reading(Seq::empty()),
                LlmEvent::Done => AnswerState::Finished(Ok(out)),
                LlmEvent::Error(e) => AnswerState::Finished(Err(e@)),
                _ => AnswerState::Reading(out),
            },
        }
    }
}

/// The answer a whole stream amounts to; a stream that ends without `Done` yields what was read.
pub open spec fn stream_answer(events: Seq<LlmEvent>) -> Result<Seq<char>, Seq<char>> {
    match answer_fold(events) {
        AnswerState::Finished(r) => r,
        AnswerState::Reading(out) => Ok(out),
    }
}

/// Runs a stream's events to one answer (the non-streaming consumer of the tool-use loop).
pub fn collect_answer(events: &Vec<LlmEvent>) -> (r: Result<String, String>)
    ensures
        match (r, stream_answer(events@)) {
            (Ok(a), Ok(b)) => a@ == b,
            (Err(a), Err(b)) => a@ == b,
            _ => false,
        },
{
    let mut out = String::new();
    let mut i: usize = 0;
    while i < events.len()
        invariant
            i <= events.len(),
            answer_fold(events@.take(i as int)) == AnswerState::Reading(out@),
        decreases events.len() - i,
    {
        proof {
            assert(events@.take(i as int + 1).drop_last() =~= events@.take(i as int));
            assert(events@.take(i as int + 1).last() == events@[i as int]);
        }
        match &events[i] {
            LlmEvent::Token(t) => push_str(&mut out, t.as_str()),
            LlmEvent::Clear => {
                out = String::new();
            },
            LlmEvent::Done => {
                proof {
                    lemma_finished_stays(events@, i as int + 1);
                }
                return Ok(out);
            },
            LlmEvent::Error(e) => {
                proof {
                    lemma_finished_stays(events@, i as int + 1);
                }
                return Err(e.clone());
            },
            _ => {},
        }
        i += 1;
    }
    assert(events@.take(events.len() as int) =~= events@);
    Ok(out)
}

/// Once finished, the fold stays finished with the same result.
proof fn lemma_finished_stays(events: Seq<LlmEvent>, i: int)
    requires
        0 <= i <= events.len(),
        answer_fold(events.take(i)) is Finished,
    ensures
        answer_fold(events) == answer_fold(events.take(i)),
    decreases events.len() - i,
{
    if i == events.len() {
        assert(events.take(i) =~= events);
    } else {
        assert(events.take(i + 1).drop_last() =~= events.take(i));
        lemma_finished_stays(events, i + 1);
    }
}


/// Folding the same continuation onto two prefixes that fold alike folds alike.
proof fn lemma_fold_congruent(a: Seq<LlmEvent>, b: Seq<LlmEvent>, c: Seq<LlmEvent>)
    requires
        answer_fold(a) == answer_fold(b),
    ensures
        answer_fold(a + c) == answer_fold(b + c),
    decreases c.len(),
{
    if c.len() == 0 {
        assert(a + c =~= a);
        assert(b + c =~= b);
    } else {
        lemma_fold_congruent(a, b, c.drop_last());
        assert((a + c).drop_last() =~= a + c.drop_last());
        assert((b + c).drop_last() =~= b + c.drop_last());
        assert((a + c).last() == c.last());
        assert((b + c).last() == c.last());
    }
}

/// The text of a run of token events.
pub open spec fn tokens_text(ts: Seq<String>) -> Seq<char>
    decreases ts.len(),
{
    if ts.len() == 0 {
        Seq::empty()
    } else {
        tokens_text(ts.drop_last()) + ts.last()@
    }
}

/// A run of token events.
pub open spec fn token_events(ts: Seq<String>) -> Seq<LlmEvent> {
    ts.map_values(|t: String| LlmEvent::Token(t))
}

/// Tokens fold into their concatenation.
proof fn lemma_tokens_fold(ts: Seq<String>)
    ensures
        answer_fold(token_events(ts)) == AnswerState::Reading(tokens_text(ts)),
    decreases ts.len(),
{
    if ts.len() > 0 {
        lemma_tokens_fold(ts.drop_last());
        assert(token_events(ts).drop_last() =~= token_events(ts.drop_last()));
    } else {
        assert(token_events(ts) =~= Seq::<LlmEvent>::empty());
    }
}

/// A `Clear` discards everything streamed before it: whatever preamble a tool-calling turn
/// streamed, the consumer's answer is what follows the last `Clear`.
pub proof fn law_clear_discards_the_preamble(pre: Seq<LlmEvent>, post: Seq<LlmEvent>)
    requires
        answer_fold(pre) is Reading,
    ensures
        stream_answer(pre.push(LlmEvent::Clear) + post) == stream_answer(post),
{
    let e = Seq::<LlmEvent>::empty();
    assert(pre.push(LlmEvent::Clear).drop_last() =~= pre);
    assert(answer_fold(pre.push(LlmEvent::Clear)) == answer_fold(e));
    lemma_fold_congruent(pre.push(LlmEvent::Clear), e, post);
    assert(e + post =~= post);
}

/// A final turn's tokens followed by `Done` yield exactly their concatenation as the answer.
pub proof fn law_done_yields_the_streamed_tokens(ts: Seq<String>)
    ensures
        stream_answer(token_events(ts).push(LlmEvent::Done)) == Ok::<Seq<char>, Seq<char>>(
            tokens_text(ts),
        ),
{
    lemma_tokens_fold(ts);
    assert(token_events(ts).push(LlmEvent::Done).drop_last() =~= token_events(ts));
}

/// Whether an event ends the stream.
pub open spec fn terminal(e: LlmEvent) -> bool {
    e is Done || e is Error
}

/// How many events of `s` end the stream.
pub open spec fn terminal_count(s: Seq<LlmEvent>) -> nat
    decreases s.len(),
{
    if s.len() == 0 {
        0
    } else {
        terminal_count(s.drop_last()) + if terminal(s.last()) {
            1nat
        } else {
            0nat
        }
    }
}

/// The events of an optional event.
pub open spec fn opt_events(e: Option<LlmEvent>) -> Seq<LlmEvent> {
    match e {
        Some(x) => seq![x],
        None => Seq::empty(),
    }
}

/// What one step of the loop may emit: no terminal event, unless the step ends the stream, which
/// emits exactly one terminal event, last.
pub open spec fn step_ok(events: Seq<LlmEvent>, ends: bool) -> bool {
    &&& terminal_count(events) == (if ends {
        1nat
    } else {
        0nat
    })
    &&& ends ==> events.len() > 0 && terminal(events.last())
}

/// The events of a run of steps, in order.
pub open spec fn trace_events(steps: Seq<(Seq<LlmEvent>, bool)>) -> Seq<LlmEvent>
    decreases steps.len(),
{
    if steps.len() == 0 {
        Seq::empty()
    } else {
        trace_events(steps.drop_last()) + steps.last().0
    }
}

proof fn lemma_terminal_count_concat(a: Seq<LlmEvent>, b: Seq<LlmEvent>)
    ensures
        terminal_count(a + b) == terminal_count(a) + terminal_count(b),
    decreases b.len(),
{
    if b.len() == 0 {
        assert(a + b =~= a);
    } else {
        lemma_terminal_count_concat(a, b.drop_last());
        assert((a + b).drop_last() =~= a + b.drop_last());
        assert((a + b).last() == b.last());
    }
}

proof fn lemma_open_trace_has_no_terminal(steps: Seq<(Seq<LlmEvent>, bool)>)
    requires
        forall|i: int| 0 <= i < steps.len() ==> step_ok(#[trigger] steps[i].0, steps[i].1),
        forall|i: int| 0 <= i < steps.len() ==> !(#[trigger] steps[i].1),
    ensures
        terminal_count(trace_events(steps)) == 0,
    decreases steps.len(),
{
    if steps.len() > 0 {
        let d = steps.drop_last();
        assert forall|i: int| 0 <= i < d.len() implies step_ok(#[trigger] d[i].0, d[i].1) && !d[i].1 by {
            assert(d[i] == steps[i]);
        }
        lemma_open_trace_has_no_terminal(d);
        assert(steps.last() == steps[steps.len() - 1]);
        lemma_terminal_count_concat(trace_events(d), steps.last().0);
    }
}

/// Every stream ends with exactly one terminal event, failures included: the loop's steps
/// (`on_content`, `end_turn`, and the ending `fail` and `give_up`) each keep to what a step may
/// emit (see their `ensures`), and no step runs once the stream has ended; so the steps of a
/// stream, none but the last ending it, emit one `Done` or `Error` in all, and it is the stream's
/// last event.
pub proof fn law_stream_ends_with_one_terminal_event(steps: Seq<(Seq<LlmEvent>, bool)>)
    requires
        steps.len() > 0,
        forall|i: int| 0 <= i < steps.len() ==> step_ok(#[trigger] steps[i].0, steps[i].1),
        forall|i: int| 0 <= i < steps.len() - 1 ==> !(#[trigger] steps[i].1),
        steps.last().1,
    ensures
        terminal_count(trace_events(steps)) == 1,
        terminal(trace_events(steps).last()),
{
    let d = steps.drop_last();
    assert forall|i: int| 0 <= i < d.len() implies step_ok(#[trigger] d[i].0, d[i].1) && !d[i].1 by {
        assert(d[i] == steps[i]);
    }
    lemma_open_trace_has_no_terminal(d);
    assert(steps.last() == steps[steps.len() - 1]);
    lemma_terminal_count_concat(trace_events(d), steps.last().0);
    let t = trace_events(steps);
    assert(t == trace_events(d) + steps.last().0);
    assert(t.last() == steps.last().0.last());
}

/// The tool output fed back to the model: the tool's text, or the failure spelled out so the
/// model can correct its arguments on the next turn.
pub fn tool_output(result: Result<String, String>) -> (r: String)
    ensures
        match result {
            Ok(t) => r@ == t@,
            Err(e) => r@ == "ERROR: tool call failed: "@ + e@,
        },
{
    match result {
        Ok(t) => t,
        Err(e) => {
            let mut out = to_owned_string("ERROR: tool call failed: ");
            push_str(&mut out, e.as_str());
            out
        },
    }
}

/// What the loop does once a model turn's stream has ended.
pub enum TurnOutcome {
    /// No tool was asked for: the streamed content was the answer, and the stream ends `Done`.
    Answer,
    /// Tools were asked for: the assistant turn (`content`, `calls`) is recorded, each call runs,
    /// and the next turn starts.
    RunTools { content: String, calls: Vec<ResolvedToolCall> },
}

/// The tool-use loop's state between the model's streamed turns: the turns taken, whether any
/// tool was called, and the current turn's streamed text and tool-call fragments.
pub struct ToolLoop {
    turns: u32,
    called_any_tool: bool,
    content: String,
    accum: ToolCallAccumulator,
    ended: bool,
}

impl ToolLoop {
    /// Whether the stream has ended (with `Done`, or with the give-up error).
    pub closed spec fn has_ended(self) -> bool {
        self.ended
    }

    /// Model turns started so far.
    pub closed spec fn turns_taken(self) -> u32 {
        self.turns
    }

    /// Whether an earlier turn ran tools.
    pub closed spec fn ran_tools(self) -> bool {
        self.called_any_tool
    }

    /// The current turn's streamed text.
    pub closed spec fn turn_text(self) -> Seq<char> {
        self.content@
    }

    /// The current turn's tool-call fragments, by index.
    pub closed spec fn turn_calls(self) -> ToolCallAccumulator {
        self.accum
    }

    /// A loop before its first turn.
    pub fn new() -> (r: Self)
        ensures
            r.turns_taken() == 0,
            !r.ran_tools(),
            r.turn_text().len() == 0,
            r.turn_calls().entries().len() == 0,
            !r.has_ended(),
    {
        ToolLoop {
            turns: 0,
            called_any_tool: false,
            content: String::new(),
            accum: ToolCallAccumulator::new(),
            ended: false,
        }
    }

    /// Starts the next model turn while fewer than [`MAX_ITERATIONS`] were taken (`true`, with
    /// the turn's buffers emptied); otherwise the loop gives up (`false`, state unchanged) and the
    /// stream ends with `Error(non_convergence_error())`.
    pub fn begin_turn(&mut self) -> (r: bool)
        requires
            !old(self).has_ended(),
        ensures
            !final(self).has_ended(),
            r == (old(self).turns_taken() < MAX_ITERATIONS),
            r ==> final(self).turns_taken() == old(self).turns_taken() + 1,
            r ==> final(self).turn_text().len() == 0,
            r ==> final(self).turn_calls().entries().len() == 0,
            r ==> final(self).ran_tools() == old(self).ran_tools(),
            !r ==> *final(self) == *old(self),
    {
        if self.turns >= MAX_ITERATIONS {
            return false;
        }
        self.turns = self.turns + 1;
        self.content = String::new();
        self.accum = ToolCallAccumulator::new();
        true
    }

    /// A content fragment: appended to the turn's text, and forwarded as a `Token` when
    /// non-empty.
    pub fn on_content(&mut self, fragment: String) -> (r: Option<LlmEvent>)
        requires
            !old(self).has_ended(),
        ensures
            !final(self).has_ended(),
            step_ok(opt_events(r), false),
            final(self).turn_text() == old(self).turn_text() + fragment@,
            final(self).turns_taken() == old(self).turns_taken(),
            final(self).ran_tools() == old(self).ran_tools(),
            final(self).turn_calls() == old(self).turn_calls(),
            fragment@.len() == 0 ==> r is None,
            fragment@.len() > 0 ==> (r matches Some(LlmEvent::Token(t)) && t@ == fragment@),
    {
        if fragment.as_str().unicode_len() == 0 {
            proof {
                assert(old(self).turn_text() + fragment@ =~= old(self).turn_text());
            }
            return None;
        }
        push_str(&mut self.content, fragment.as_str());
        let r = Some(LlmEvent::Token(fragment));
        proof {
            reveal_with_fuel(terminal_count, 2);
            assert(opt_events(r).drop_last() =~= Seq::<LlmEvent>::empty());
        }
        r
    }

    /// A tool-call fragment for the slot at `index` (see [`ToolCallAccumulator::push`]).
    pub fn on_tool_fragment(
        &mut self,
        index: u32,
        id: Option<String>,
        name: Option<String>,
        arguments: Option<String>,
    )
        ensures
            final(self).turn_calls().slot(index) == Some(
                slot_after(
                    match old(self).turn_calls().slot(index) {
                        Some(s) => s,
                        None => empty_slot(),
                    },
                    text_of(id),
                    text_of(name),
                    text_of(arguments),
                ),
            ),
            forall|j: u32|
                j != index ==> #[trigger] final(self).turn_calls().slot(j) == old(
                    self,
                ).turn_calls().slot(j),
            final(self).turn_text() == old(self).turn_text(),
            final(self).turns_taken() == old(self).turns_taken(),
            final(self).ran_tools() == old(self).ran_tools(),
            final(self).has_ended() == old(self).has_ended(),
    {
        self.accum.push(index, id, name, arguments);
    }

    /// Ends the turn: with no executable tool call the turn's text was the answer (`Done`);
    /// otherwise the preamble is cleared (`Clear`) and the calls run, the loop remembering that
    /// tools were called.
    pub fn end_turn(&mut self) -> (r: (Vec<LlmEvent>, TurnOutcome))
        requires
            !old(self).has_ended(),
        ensures
            step_ok(r.0@, final(self).has_ended()),
            final(self).has_ended() <==> r.1 is Answer,
            ({
                let calls = assembled(old(self).turn_calls().entries());
                &&& final(self).turns_taken() == old(self).turns_taken()
                &&& calls.len() == 0 ==> (r.0@ == seq![LlmEvent::Done] && r.1 is Answer
                    && final(self).ran_tools() == old(self).ran_tools())
                &&& calls.len() > 0 ==> r.0@ == seq![LlmEvent::Clear]
                &&& calls.len() > 0 ==> final(self).ran_tools()
                &&& calls.len() > 0 ==> (r.1 matches TurnOutcome::RunTools { content, calls: cs }
                    && content@ == old(self).turn_text() && calls_view(cs@) == calls)
            }),
    {
        let mut taken = ToolCallAccumulator::new();
        std::mem::swap(&mut taken, &mut self.accum);
        let calls = taken.assemble();
        if calls.len() == 0 {
            let r = vec![LlmEvent::Done];
            assert(r@ =~= seq![LlmEvent::Done]);
            self.ended = true;
            proof {
                reveal_with_fuel(terminal_count, 2);
            }
            return (r, TurnOutcome::Answer);
        }
        self.called_any_tool = true;
        let mut content = String::new();
        std::mem::swap(&mut content, &mut self.content);
        let r = vec![LlmEvent::Clear];
        assert(r@ =~= seq![LlmEvent::Clear]);
        proof {
            reveal_with_fuel(terminal_count, 2);
        }
        (r, TurnOutcome::RunTools { content, calls })
    }

    /// Fails the stream: building the client or the request, opening the stream, a frame, or
    /// recording a turn went wrong, and the stream ends with that error.
    pub fn fail(&mut self, message: String) -> (r: LlmEvent)
        requires
            !old(self).has_ended(),
        ensures
            r == LlmEvent::Error(message),
            final(self).has_ended(),
            step_ok(seq![r], true),
            final(self).turns_taken() == old(self).turns_taken(),
    {
        self.ended = true;
        let r = LlmEvent::Error(message);
        proof {
            reveal_with_fuel(terminal_count, 2);
        }
        r
    }

    /// Gives up once the turn budget is spent: the stream ends with the non-convergence error.
    pub fn give_up(&mut self) -> (r: LlmEvent)
        requires
            !old(self).has_ended(),
            old(self).turns_taken() >= MAX_ITERATIONS,
        ensures
            r matches LlmEvent::Error(m) && m@ == non_convergence_text(),
            final(self).has_ended(),
            step_ok(seq![r], true),
            final(self).turns_taken() == old(self).turns_taken(),
    {
        self.ended = true;
        let r = LlmEvent::Error(non_convergence_error());
        proof {
            reveal_with_fuel(terminal_count, 2);
        }
        r
    }
}

} // verus!
