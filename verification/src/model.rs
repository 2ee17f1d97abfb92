//! Conversation history shared by the legacy and runtime paths.

use vstd::prelude::*;

verus! {

/// One earlier exchange of the conversation.
#[derive(Debug, Clone, PartialEq, Eq)]
pub struct History {
    /// What the user asked.
    pub user_prompt: String,
    /// What the model answered.
    pub model_response: String,
}


/// One message of a chat request, by role.
#[derive(Debug, Clone, PartialEq, Eq)]
pub enum ChatMessage {
    System(String),
    User(String),
    Assistant(String),
}

/// The view of a message: its role (`0` system, `1` user, `2` assistant) and its text.
pub open spec fn message_view(m: ChatMessage) -> (u8, Seq<char>) {
    match m {
        ChatMessage::System(t) => (0u8, t@),
        ChatMessage::User(t) => (1u8, t@),
        ChatMessage::Assistant(t) => (2u8, t@),
    }
}

/// The history replayed as alternating user and assistant messages, oldest first.
pub open spec fn history_views(h: Seq<History>) -> Seq<(u8, Seq<char>)>
    decreases h.len(),
{
    if h.len() == 0 {
        Seq::empty()
    } else {
        history_views(h.drop_last()).push((1u8, h.last().user_prompt@)).push(
            (2u8, h.last().model_response@),
        )
    }
}

/// The seed of a conversation: the system prompt, the history replayed turn by turn, then the
/// current user prompt.
pub fn initial_messages(system: &str, history: &[History], user_prompt: &str) -> (r: Vec<
    ChatMessage,
>)
    ensures
        r@.map_values(|m: ChatMessage| message_view(m)) == seq![(0u8, system@)] + history_views(
            history@,
        ) + seq![(1u8, user_prompt@)],
{
    let mut out: Vec<ChatMessage> = Vec::new();
    out.push(ChatMessage::System(system.to_string()));
    let mut i: usize = 0;
    while i < history.len()
        invariant
            i <= history.len(),
            out@.map_values(|m: ChatMessage| message_view(m)) == seq![(0u8, system@)] + history_views(
                history@.take(i as int),
            ),
        decreases history.len() - i,
    {
        proof {
            assert(history@.take(i as int + 1).drop_last() =~= history@.take(i as int));
            assert(history@.take(i as int + 1).last() == history@[i as int]);
        }
        let ghost before = out@.map_values(|m: ChatMessage| message_view(m));
        out.push(ChatMessage::User(history[i].user_prompt.clone()));
        out.push(ChatMessage::Assistant(history[i].model_response.clone()));
        assert(out@.map_values(|m: ChatMessage| message_view(m)) =~= before.push(
            (1u8, history@[i as int].user_prompt@),
        ).push((2u8, history@[i as int].model_response@)));
        i += 1;
    }
    assert(history@.take(history.len() as int) =~= history@);
    let ghost before = out@.map_values(|m: ChatMessage| message_view(m));
    out.push(ChatMessage::User(user_prompt.to_string()));
    assert(out@.map_values(|m: ChatMessage| message_view(m)) =~= before.push((1u8, user_prompt@)));
    out
}

} // verus!
