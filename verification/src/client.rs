//! The conversation as the client holds it: the messages shown, the text being
//! typed, and what each event does to the two.

use crate::message::{ChatMessage, ChatMessageView};
use crate::response::{decimal, decimal_string};
use vstd::prelude::*;
use vstd::string::StringExecFns;

verus! {

/// What can happen to the conversation.
#[derive(Debug)]
pub enum Msg {
    /// The user submits what they typed.
    Send,
    /// The service has answered.
    Receive(ChatMessage),
    /// The user has changed the text being typed.
    UpdateInput(String),
    /// The exchange with the service has failed, for this reason.
    Error(String),
}

/// An event as sequences.
pub enum MsgView {
    Send,
    Receive(ChatMessageView),
    UpdateInput(Seq<char>),
    Error(Seq<char>),
}

impl View for Msg {
    type V = MsgView;

    open spec fn view(&self) -> MsgView {
        match *self {
            Msg::Send => MsgView::Send,
            Msg::Receive(m) => MsgView::Receive(m@),
            Msg::UpdateInput(text) => MsgView::UpdateInput(text@),
            Msg::Error(reason) => MsgView::Error(reason@),
        }
    }
}

/// The conversation: the messages shown, oldest first, and the text being typed.
#[derive(Debug)]
pub struct Model {
    messages: Vec<ChatMessage>,
    input: String,
}

/// A conversation as sequences.
pub struct ModelView {
    pub messages: Seq<ChatMessageView>,
    pub input: Seq<char>,
}

impl View for Model {
    type V = ModelView;

    closed spec fn view(&self) -> ModelView {
        ModelView { messages: self.messages@.map_values(|m: ChatMessage| m@), input: self.input@ }
    }
}

/// What follows from an event: whether the conversation is to be drawn again,
/// and the message that is to be sent to the service, if any.
#[derive(Debug)]
pub struct Update {
    pub redraw: bool,
    pub outgoing: Option<ChatMessage>,
}

/// What follows from an event, as sequences.
pub struct UpdateView {
    pub redraw: bool,
    pub outgoing: Option<ChatMessageView>,
}

impl View for Update {
    type V = UpdateView;

    open spec fn view(&self) -> UpdateView {
        UpdateView {
            redraw: self.redraw,
            outgoing: match self.outgoing {
                Some(m) => Some(m@),
                None => None,
            },
        }
    }
}

/// The message that the user sends by submitting `input`.
pub open spec fn typed(input: Seq<char>) -> ChatMessageView {
    ChatMessageView { user: "User"@, message: input }
}

/// The message that tells the user of a failure.
pub open spec fn notice(reason: Seq<char>) -> ChatMessageView {
    ChatMessageView { user: "System"@, message: reason }
}

/// The conversation after an event, and what follows from the event. Each
/// message is added at the end; submitting empties the text being typed and
/// sends it; typing changes that text alone and needs no redrawing.
pub open spec fn updated(model: ModelView, msg: MsgView) -> (ModelView, UpdateView) {
    match msg {
        MsgView::Send => (
            ModelView { messages: model.messages.push(typed(model.input)), input: Seq::empty() },
            UpdateView { redraw: true, outgoing: Some(typed(model.input)) },
        ),
        MsgView::Receive(m) => (
            ModelView { messages: model.messages.push(m), input: model.input },
            UpdateView { redraw: true, outgoing: None },
        ),
        MsgView::UpdateInput(text) => (
            ModelView { messages: model.messages, input: text },
            UpdateView { redraw: false, outgoing: None },
        ),
        MsgView::Error(reason) => (
            ModelView { messages: model.messages.push(notice(reason)), input: model.input },
            UpdateView { redraw: true, outgoing: None },
        ),
    }
}

impl Model {
    /// An empty conversation.
    pub fn create() -> (model: Model)
        ensures
            model@ == (ModelView { messages: Seq::empty(), input: Seq::empty() }),
    {
        let model = Model { messages: Vec::new(), input: String::new() };
        assert(model@.messages =~= Seq::empty());
        model
    }

    /// Takes note of `msg`.
    pub fn update(&mut self, msg: Msg) -> (update: Update)
        ensures
            (final(self)@, update@) == updated(old(self)@, msg@),
    {
        let ghost before = self@;
        let update = match msg {
            Msg::Send => {
                let message = ChatMessage {
                    user: String::from_str("User"),
                    message: self.input.clone(),
                };
                self.messages.push(message.clone());
                self.input = String::new();
                Update { redraw: true, outgoing: Some(message) }
            },
            Msg::Receive(message) => {
                self.messages.push(message);
                Update { redraw: true, outgoing: None }
            },
            Msg::UpdateInput(text) => {
                self.input = text;
                Update { redraw: false, outgoing: None }
            },
            Msg::Error(reason) => {
                self.messages.push(ChatMessage { user: String::from_str("System"), message: reason });
                Update { redraw: true, outgoing: None }
            },
        };
        assert(self@.messages =~= updated(before, msg@).0.messages);
        update
    }

    /// The messages shown, oldest first.
    pub fn messages(&self) -> (messages: &Vec<ChatMessage>)
        ensures
            messages@.map_values(|m: ChatMessage| m@) == self@.messages,
    {
        &self.messages
    }

    /// The text being typed.
    pub fn input(&self) -> (input: &String)
        ensures
            input@ == self@.input,
    {
        &self.input
    }
}

/// How an exchange with the service ended.
#[derive(Debug)]
pub enum Exchange {
    /// The request could not be built.
    NotBuilt,
    /// The request could not be sent.
    NotSent,
    /// The service answered with this status, which is no success.
    Refused(u16),
    /// The service answered, but not with a chat message.
    Unreadable,
    /// The service answered with this message.
    Answered(ChatMessage),
}

/// The end of an exchange, as sequences.
pub enum ExchangeView {
    NotBuilt,
    NotSent,
    Refused(nat),
    Unreadable,
    Answered(ChatMessageView),
}

impl View for Exchange {
    type V = ExchangeView;

    open spec fn view(&self) -> ExchangeView {
        match *self {
            Exchange::NotBuilt => ExchangeView::NotBuilt,
            Exchange::NotSent => ExchangeView::NotSent,
            Exchange::Refused(status) => ExchangeView::Refused(status as nat),
            Exchange::Unreadable => ExchangeView::Unreadable,
            Exchange::Answered(m) => ExchangeView::Answered(m@),
        }
    }
}

/// What the conversation is told at the end of an exchange: the answer, or the
/// reason for which there is none.
pub open spec fn concluded(exchange: ExchangeView) -> MsgView {
    match exchange {
        ExchangeView::NotBuilt => MsgView::Error("Failed to create request."@),
        ExchangeView::NotSent => MsgView::Error("Failed to send message. Please try again."@),
        ExchangeView::Refused(status) => MsgView::Error("Server error: "@ + decimal(status)),
        ExchangeView::Unreadable => MsgView::Error("Failed to parse response from server."@),
        ExchangeView::Answered(m) => MsgView::Receive(m),
    }
}

/// What the conversation is told at the end of an exchange.
pub fn conclude(exchange: Exchange) -> (msg: Msg)
    ensures
        msg@ == concluded(exchange@),
{
    match exchange {
        Exchange::NotBuilt => Msg::Error(String::from_str("Failed to create request.")),
        Exchange::NotSent => Msg::Error(
            String::from_str("Failed to send message. Please try again."),
        ),
        Exchange::Refused(status) => {
            let code = decimal_string(status as usize);
            Msg::Error(String::from_str("Server error: ").concat(code.as_str()))
        },
        Exchange::Unreadable => Msg::Error(
            String::from_str("Failed to parse response from server."),
        ),
        Exchange::Answered(message) => Msg::Receive(message),
    }
}

} // verus!
