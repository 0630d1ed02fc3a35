//! The chat payload and the reply the service gives to it.

use vstd::prelude::*;
use vstd::string::StringExecFns;

verus! {

/// One chat message: who speaks, and what they say. Requests and replies have
/// this one shape.
#[derive(Debug)]
pub struct ChatMessage {
    pub user: String,
    pub message: String,
}

/// A chat message as two character sequences.
pub struct ChatMessageView {
    pub user: Seq<char>,
    pub message: Seq<char>,
}

impl View for ChatMessage {
    type V = ChatMessageView;

    open spec fn view(&self) -> ChatMessageView {
        ChatMessageView { user: self.user@, message: self.message@ }
    }
}

impl Clone for ChatMessage {
    fn clone(&self) -> (copy: Self)
        ensures
            copy == *self,
    {
        ChatMessage { user: self.user.clone(), message: self.message.clone() }
    }
}

/// The name under which the service answers.
pub open spec fn bot_name() -> Seq<char> {
    "Rusty"@
}

/// What the service puts in front of the text it was sent.
pub open spec fn reply_prefix() -> Seq<char> {
    "You said: "@
}

/// The reply to `m`: spoken by the service, whoever sent `m`, and made of the
/// prefix followed by the text of `m` as it stands.
pub open spec fn reply_to(m: ChatMessageView) -> ChatMessageView {
    ChatMessageView { user: bot_name(), message: reply_prefix() + m.message }
}

/// The service's reply to `message`. The message itself is left as it is.
pub fn process_message(message: &ChatMessage) -> (reply: ChatMessage)
    ensures
        reply@ == reply_to(message@),
{
    let user = String::from_str("Rusty");
    let text = String::from_str("You said: ").concat(message.message.as_str());
    ChatMessage { user, message: text }
}

} // verus!
