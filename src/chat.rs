//! Conversation history and the prompts built from it.

use vstd::prelude::*;
use crate::text::{contains_text, occurs_in, replace_all, replace_text};

verus! {

/// The place in a prompt template where the user's message goes.
pub const MESSAGE_SLOT: &'static str = "[[message]]";

/// Who wrote a turn of the conversation.
#[derive(PartialEq, Eq, Structural, Clone, Copy, Debug)]
pub enum MessageRole {
    Human,
    AI,
}

/// One turn of the conversation.
pub struct Message {
    pub text: String,
    pub role: MessageRole,
}

/// The conversation so far, oldest turn first. It only grows.
pub struct ChatState {
    pub messages: Vec<Message>,
}

/// The prompt for one user message: the template with each occurrence of
/// the slot replaced by the message, or the message alone when the template
/// has no slot.
pub open spec fn rendered(template: Seq<char>, message: Seq<char>) -> Seq<char> {
    if occurs_in(template, MESSAGE_SLOT@) {
        replace_all(template, MESSAGE_SLOT@, message)
    } else {
        message
    }
}

/// How a turn stands in the prompt: user turns go through the template,
/// assistant turns stand as they are.
pub open spec fn turn_text(m: Message, template: Seq<char>) -> Seq<char> {
    match m.role {
        MessageRole::Human => rendered(template, m.text@),
        MessageRole::AI => m.text@,
    }
}

/// The prompt for a conversation: its turns in order, joined by one space.
pub open spec fn conversation_prompt(messages: Seq<Message>, template: Seq<char>) -> Seq<char>
    decreases messages.len(),
{
    if messages.len() == 0 {
        Seq::empty()
    } else if messages.len() == 1 {
        turn_text(messages[0], template)
    } else {
        conversation_prompt(messages.drop_last(), template) + " "@ + turn_text(
            messages.last(),
            template,
        )
    }
}

/// The prompt for one user message (a single question, without history).
pub fn render_prompt(template: &str, message: &str) -> (r: String)
    ensures
        r@ == rendered(template@, message@),
{
    proof {
        reveal_strlit("[[message]]");
    }
    if contains_text(template, MESSAGE_SLOT) {
        replace_text(template, MESSAGE_SLOT, message)
    } else {
        String::from_str(message)
    }
}

/// The prompt for a whole conversation.
pub fn build_conversation_prompt(messages: &Vec<Message>, template: &str) -> (r: String)
    ensures
        r@ == conversation_prompt(messages@, template@),
{
    let mut out = String::new();
    let mut i: usize = 0;
    while i < messages.len()
        invariant
            i <= messages.len(),
            out@ == conversation_prompt(messages@.subrange(0, i as int), template@),
        decreases messages.len() - i,
    {
        let m = &messages[i];
        let piece = match m.role {
            MessageRole::Human => render_prompt(template, m.text.as_str()),
            MessageRole::AI => m.text.clone(),
        };
        proof {
            let next = messages@.subrange(0, i + 1);
            assert(next.drop_last() =~= messages@.subrange(0, i as int));
            assert(next.last() == messages@[i as int]);
        }
        if i > 0 {
            out.append(" ");
        }
        out.append(piece.as_str());
        i = i + 1;
    }
    assert(messages@.subrange(0, messages.len() as int) =~= messages@);
    out
}

impl ChatState {
    /// An empty conversation.
    pub fn new() -> (r: ChatState)
        ensures
            r.messages@.len() == 0,
    {
        ChatState { messages: Vec::new() }
    }

    /// Adds the user's message as the newest turn and returns the prompt for
    /// the whole conversation.
    pub fn begin_turn(&mut self, message: String, template: &str) -> (r: String)
        ensures
            final(self).messages@ == old(self).messages@.push(
                Message { text: message, role: MessageRole::Human },
            ),
            r@ == conversation_prompt(final(self).messages@, template@),
    {
        self.messages.push(Message { text: message, role: MessageRole::Human });
        build_conversation_prompt(&self.messages, template)
    }

    /// Adds the assistant's answer as the newest turn.
    pub fn record_answer(&mut self, answer: String)
        ensures
            final(self).messages@ == old(self).messages@.push(
                Message { text: answer, role: MessageRole::AI },
            ),
    {
        self.messages.push(Message { text: answer, role: MessageRole::AI });
    }
}

/// Two user turns with the assistant's answer between them: the prompt of the
/// second holds the whole history in order, the earlier turns first, then the
/// first message through the template, the answer as it is, and the second
/// message through the template, one space apart.
pub proof fn lemma_two_turns_prompt(
    history: Seq<Message>,
    first: String,
    answer: String,
    second: String,
    template: Seq<char>,
)
    ensures
        ({
            let h = history.push(Message { text: first, role: MessageRole::Human }).push(
                Message { text: answer, role: MessageRole::AI },
            ).push(Message { text: second, role: MessageRole::Human });
            let tail = rendered(template, first@) + " "@ + answer@ + " "@ + rendered(
                template,
                second@,
            );
            conversation_prompt(h, template) == if history.len() == 0 {
                tail
            } else {
                conversation_prompt(history, template) + " "@ + tail
            }
        }),
{
    let h1 = history.push(Message { text: first, role: MessageRole::Human });
    let h2 = h1.push(Message { text: answer, role: MessageRole::AI });
    let h3 = h2.push(Message { text: second, role: MessageRole::Human });
    assert(h3.drop_last() =~= h2);
    assert(h2.drop_last() =~= h1);
    assert(h1.drop_last() =~= history);
    if history.len() == 0 {
        assert(h1.len() == 1);
        assert(conversation_prompt(h1, template) == rendered(template, first@));
    }
    let t1 = rendered(template, first@);
    let t3 = rendered(template, second@);
    assert(conversation_prompt(h3, template) == conversation_prompt(h2, template) + " "@ + t3);
    assert(conversation_prompt(h2, template) == conversation_prompt(h1, template) + " "@ + answer@);
    let tail = t1 + " "@ + answer@ + " "@ + t3;
    if history.len() == 0 {
        assert(conversation_prompt(h3, template) =~= tail);
    } else {
        assert(conversation_prompt(h1, template) == conversation_prompt(history, template) + " "@
            + t1);
        assert(conversation_prompt(h3, template) =~= conversation_prompt(history, template) + " "@
            + tail);
    }
}

} // verus!
