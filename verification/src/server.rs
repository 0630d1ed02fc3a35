//! What the service keeps from one connection to the next: a log of messages
//! that only grows. No reply depends on it.

use crate::connection::{Connection, State};
use crate::message::{ChatMessage, ChatMessageView};
use vstd::prelude::*;

verus! {

/// The service: its session history, and the connections it opens.
#[derive(Debug)]
pub struct Rusty {
    messages: Vec<ChatMessage>,
}

impl View for Rusty {
    type V = Seq<ChatMessageView>;

    closed spec fn view(&self) -> Seq<ChatMessageView> {
        self.messages@.map_values(|m: ChatMessage| m@)
    }
}

impl Rusty {
    /// A service with an empty history.
    pub fn new() -> (rusty: Rusty)
        ensures
            rusty@ == Seq::<ChatMessageView>::empty(),
    {
        let rusty = Rusty { messages: Vec::new() };
        assert(rusty@ =~= Seq::<ChatMessageView>::empty());
        rusty
    }

    /// The state of a connection that has just been accepted. It owes nothing to
    /// the history, nor to any other connection.
    pub fn accept(&self) -> (connection: Connection)
        ensures
            connection@ == State::AwaitingRequest,
    {
        Connection::new()
    }

    /// Adds `message` at the end of the history. What was there stays, in its
    /// order.
    pub fn record(&mut self, message: ChatMessage)
        ensures
            final(self)@ == old(self)@.push(message@),
    {
        self.messages.push(message);
        assert(self@ =~= old(self)@.push(message@));
    }

    /// The history, oldest message first.
    pub fn history(&self) -> (messages: &Vec<ChatMessage>)
        ensures
            messages@.map_values(|m: ChatMessage| m@) == self@,
    {
        &self.messages
    }
}

} // verus!
