//! The streaming LLM adapter's pure fold: content and tool-call fragments accumulate per turn,
//! each emitting its stream event, and finalize into one response.

use vstd::prelude::*;

use crate::agent::events::AgentEvent;
use crate::agent::payload::AgentError;
use crate::llm_connector::{
    assembled, calls_view, empty_slot, slot_after, text_of, ResolvedToolCall, SlotView,
    ToolCallAccumulator,
};
use crate::runtime::memory::store::clone_opt;
use crate::text::{chars_vec, push_str, to_owned_string};

verus! {

/// One streamed tool-call fragment: id and name arrive once, arguments dribble.
#[derive(Debug, Clone)]
pub struct ToolCallFragment {
    pub index: u32,
    pub id: Option<String>,
    pub name: Option<String>,
    pub arguments: Option<String>,
}

/// One streamed delta.
#[derive(Debug, Clone)]
pub struct DeltaFrame {
    pub content: Option<String>,
    pub tool_calls: Vec<ToolCallFragment>,
}

/// What a turn's fold finalizes into: the message, or the tool calls (arguments still as text).
#[derive(Debug)]
pub enum StreamedResponse {
    Message(String),
    ToolCalls(Vec<ResolvedToolCall>),
}

/// An emitted event, as far as the fold decides it.
pub enum Note {
    Content(Seq<char>),
    ArgsDelta(Seq<char>, Seq<char>),
    Proposed(Seq<char>, Seq<char>),
    Other,
}

/// The note an event stands for.
pub open spec fn note_of(e: AgentEvent) -> Note {
    match e {
        AgentEvent::ContentDelta { text } => Note::Content(text@),
        AgentEvent::ToolArgsDelta { id, fragment } => Note::ArgsDelta(id@, fragment@),
        AgentEvent::ToolCallProposed { id, name } => Note::Proposed(id@, name@),
        _ => Note::Other,
    }
}

/// The notes of a list of events.
pub open spec fn notes(es: Seq<AgentEvent>) -> Seq<Note> {
    es.map_values(|e: AgentEvent| note_of(e))
}

/// A fragment's view: `(index, id, name, arguments)`.
pub open spec fn frag_view(f: ToolCallFragment) -> (u32, Option<Seq<char>>, Option<Seq<char>>, Option<Seq<char>>) {
    (f.index, text_of(f.id), text_of(f.name), text_of(f.arguments))
}

/// The slot a fragment lands in, before it.
pub open spec fn slot_before(m: Map<u32, SlotView>, index: u32) -> SlotView {
    if m.contains_key(index) {
        m[index]
    } else {
        empty_slot()
    }
}

/// The slots after folding fragments in order.
pub open spec fn after_frags(
    m: Map<u32, SlotView>,
    fs: Seq<(u32, Option<Seq<char>>, Option<Seq<char>>, Option<Seq<char>>)>,
) -> Map<u32, SlotView>
    decreases fs.len(),
{
    if fs.len() == 0 {
        m
    } else {
        let m2 = after_frags(m, fs.drop_last());
        let f = fs.last();
        m2.insert(f.0, slot_after(slot_before(m2, f.0), f.1, f.2, f.3))
    }
}

/// The argument notes of folding fragments in order: one per non-empty argument fragment,
/// carrying the slot's id (empty when none yet).
pub open spec fn frag_notes(
    m: Map<u32, SlotView>,
    fs: Seq<(u32, Option<Seq<char>>, Option<Seq<char>>, Option<Seq<char>>)>,
) -> Seq<Note>
    decreases fs.len(),
{
    if fs.len() == 0 {
        Seq::empty()
    } else {
        let m2 = after_frags(m, fs.drop_last());
        let prev = frag_notes(m, fs.drop_last());
        let f = fs.last();
        match f.3 {
            Some(a) => if a.len() > 0 {
                let id = match slot_after(slot_before(m2, f.0), f.1, f.2, f.3).0 {
                    Some(i) => i,
                    None => Seq::empty(),
                };
                prev.push(Note::ArgsDelta(id, a))
            } else {
                prev
            },
            None => prev,
        }
    }
}

/// The per-turn fold of a streamed response.
pub struct StreamAccumulator {
    content: String,
    tools: ToolCallAccumulator,
}

impl StreamAccumulator {
    /// The answer content so far.
    pub closed spec fn text(self) -> Seq<char> {
        self.content@
    }

    /// The tool-call slots so far.
    pub closed spec fn slots(self) -> Map<u32, SlotView> {
        self.tools.slot_map()
    }

    /// The slots in index order.
    pub closed spec fn slot_entries(self) -> Seq<(u32, SlotView)> {
        self.tools.entries()
    }

    /// Nothing streamed yet.
    pub fn new() -> (r: Self)
        ensures
            r.text().len() == 0,
            r.slot_entries().len() == 0,
    {
        StreamAccumulator { content: String::new(), tools: ToolCallAccumulator::new() }
    }

    /// Folds one frame: non-empty content appends and emits a content delta; each tool-call
    /// fragment lands in its slot, a non-empty argument fragment emitting an arguments delta.
    pub fn push(&mut self, frame: DeltaFrame) -> (r: Vec<AgentEvent>)
        ensures
            ({
                let c = match frame.content {
                    Some(t) => t@,
                    None => Seq::empty(),
                };
                let fs = frame.tool_calls@.map_values(|f: ToolCallFragment| frag_view(f));
                &&& final(self).text() == old(self).text() + c
                &&& final(self).slots() == after_frags(old(self).slots(), fs)
                &&& notes(r@) == (if c.len() > 0 {
                    seq![Note::Content(c)]
                } else {
                    Seq::<Note>::empty()
                }) + frag_notes(old(self).slots(), fs)
            }),
    {
        let mut events: Vec<AgentEvent> = Vec::new();
        match frame.content {
            Some(text) => {
                if chars_vec(text.as_str()).len() > 0 {
                    push_str(&mut self.content, text.as_str());
                    events.push(AgentEvent::ContentDelta { text });
                    assert(notes(events@) =~= seq![Note::Content(text@)]);
                } else {
                    assert(self.content@ =~= old(self).content@ + text@);
                }
            },
            None => {
                assert(self.content@ =~= old(self).content@ + Seq::<char>::empty());
            },
        }
        let ghost head = notes(events@);
        let ghost m0 = old(self).slots();
        let ghost fs = frame.tool_calls@.map_values(|f: ToolCallFragment| frag_view(f));
        let mut i: usize = 0;
        while i < frame.tool_calls.len()
            invariant
                i <= frame.tool_calls.len(),
                fs == frame.tool_calls@.map_values(|f: ToolCallFragment| frag_view(f)),
                self.tools.slot_map() == after_frags(m0, fs.take(i as int)),
                notes(events@) == head + frag_notes(m0, fs.take(i as int)),
                self.content@ == old(self).content@ + match frame.content {
                    Some(t) => t@,
                    None => Seq::<char>::empty(),
                },
            decreases frame.tool_calls.len() - i,
        {
            let frag = ToolCallFragment {
                index: frame.tool_calls[i].index,
                id: clone_opt(&frame.tool_calls[i].id),
                name: clone_opt(&frame.tool_calls[i].name),
                arguments: clone_opt(&frame.tool_calls[i].arguments),
            };
            let ghost fv = frag_view(frame.tool_calls@[i as int]);
            proof {
                assert(fs.take(i as int + 1).drop_last() =~= fs.take(i as int));
                assert(fs.take(i as int + 1).last() == fv);
            }
            let ghost m_before = self.tools.slot_map();
            let nonempty = match &frag.arguments {
                Some(a) => chars_vec(a.as_str()).len() > 0,
                None => false,
            };
            let fragment = match &frag.arguments {
                Some(a) => a.clone(),
                None => String::new(),
            };
            self.tools.push(frag.index, frag.id, frag.name, frag.arguments);
            proof {
                assert(self.tools.slot_map() =~= m_before.insert(
                    fv.0,
                    slot_after(slot_before(m_before, fv.0), fv.1, fv.2, fv.3),
                ));
            }
            if nonempty {
                let id = match self.tools.id_of(frag.index) {
                    Some(x) => x,
                    None => String::new(),
                };
                let ghost before = notes(events@);
                events.push(AgentEvent::ToolArgsDelta { id, fragment });
                assert(notes(events@) =~= before.push(Note::ArgsDelta(id@, fragment@)));
            }
            proof {
                assert(notes(events@) =~= head + frag_notes(m0, fs.take(i as int + 1)));
            }
            i += 1;
        }
        assert(fs.take(frame.tool_calls.len() as int) =~= fs);
        events
    }

    /// Finalizes the turn: with executable tool calls, one proposal event each and the calls;
    /// otherwise the accumulated message.
    pub fn finish(self) -> (r: (StreamedResponse, Vec<AgentEvent>))
        ensures
            ({
                let calls = assembled(self.slot_entries());
                &&& calls.len() == 0 ==> (r.0 matches StreamedResponse::Message(m) && m@
                    == self.text() && r.1@.len() == 0)
                &&& calls.len() > 0 ==> (r.0 matches StreamedResponse::ToolCalls(cs) && calls_view(
                    cs@,
                ) == calls && notes(r.1@) == calls.map_values(
                    |c: (Seq<char>, Seq<char>, Seq<char>)| Note::Proposed(c.0, c.1),
                ))
            }),
    {
        let content = self.content;
        let calls = self.tools.assemble();
        if calls.len() == 0 {
            return (StreamedResponse::Message(content), Vec::new());
        }
        let mut events: Vec<AgentEvent> = Vec::new();
        let ghost cv = calls_view(calls@);
        let mut i: usize = 0;
        while i < calls.len()
            invariant
                i <= calls.len(),
                cv == calls_view(calls@),
                notes(events@) == cv.take(i as int).map_values(
                    |c: (Seq<char>, Seq<char>, Seq<char>)| Note::Proposed(c.0, c.1),
                ),
            decreases calls.len() - i,
        {
            let ghost before = notes(events@);
            assert(cv[i as int] == (calls@[i as int].id@, calls@[i as int].name@,
                calls@[i as int].arguments@));
            let id = calls[i].id.clone();
            let name = calls[i].name.clone();
            events.push(AgentEvent::ToolCallProposed { id, name });
            assert(notes(events@) =~= before.push(Note::Proposed(cv[i as int].0, cv[i as int].1)));
            assert(notes(events@) =~= cv.take(i as int + 1).map_values(
                |c: (Seq<char>, Seq<char>, Seq<char>)| Note::Proposed(c.0, c.1),
            ));
            i += 1;
        }
        assert(cv.take(calls.len() as int) =~= cv);
        (StreamedResponse::ToolCalls(calls), events)
    }
}


/// Why the provider stopped a streamed turn.
#[derive(Clone, Copy, Debug, PartialEq, Eq)]
pub enum StopReason {
    /// The model finished its message.
    Stop,
    /// The turn hit the token limit.
    Length,
    /// The model asked for tool calls.
    ToolCalls,
    /// The provider's content filter withheld the reply.
    ContentFilter,
    /// The model made a (legacy) function call.
    FunctionCall,
}

/// A streamed turn that stopped at the token limit or at the content filter is a failed turn, not
/// a partial answer; any other stop (or none reported) lets the turn's result stand.
pub fn stop_error(reason: Option<StopReason>) -> (r: Option<AgentError>)
    ensures
        reason == Some(StopReason::Length) ==> (r matches Some(AgentError::Capability(m)) && m@
            == "chat response truncated at token limit"@),
        reason == Some(StopReason::ContentFilter) ==> (r matches Some(AgentError::Capability(m))
            && m@ == "chat response blocked by content filter"@),
        reason != Some(StopReason::Length) && reason != Some(StopReason::ContentFilter) ==> r is None,
{
    match reason {
        Some(StopReason::Length) => Some(
            AgentError::Capability(to_owned_string("chat response truncated at token limit")),
        ),
        Some(StopReason::ContentFilter) => Some(
            AgentError::Capability(to_owned_string("chat response blocked by content filter")),
        ),
        _ => None,
    }
}

} // verus!
