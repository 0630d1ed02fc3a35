//! One connection, from the bytes it delivers to the reply it is sent: what to do
//! next, given what has just happened. Whoever owns the socket reads, decodes,
//! encodes and writes; every decision is made here.

use crate::message::{process_message, reply_to, ChatMessage, ChatMessageView};
use crate::request::{body_of, parse_text, route_of, IncomingRequest, RequestView, Route};
use crate::request::{lemma_parts_are_text, lemma_protocol_words, lemma_route_by_prefix};
use crate::request::{options_prefix, post_prefix};
use crate::response::{allows_cross_origin, bad_request, chat_reply, content_type_of, framed, head};
use crate::response::{is_framed, is_plain, lemma_body_follows_head, lemma_body_is_read_back};
use crate::response::{lemma_framed, lemma_framed_is_plain, method_not_allowed, preflight, wire};
use crate::response::{HttpResponse, ResponseView, Status};
use crate::text::lossy_text;
use vstd::prelude::*;
use vstd::slice::slice_subrange;
use vstd::utf8::{encode_utf8, encode_utf8_valid_utf8, valid_utf8};

verus! {

/// How many bytes of a request are looked at. A request is read once; what does
/// not fit is cut off.
pub const READ_BUFFER_SIZE: usize = 1024;

/// Where a connection stands.
#[derive(Clone, Copy, Debug, PartialEq, Eq, Structural)]
pub enum State {
    /// Nothing has been read yet.
    AwaitingRequest,
    /// The body of a posted request has been handed out to be decoded.
    AwaitingDecode,
    /// The answer has been handed out to be encoded.
    AwaitingEncode,
    /// The reply is on its way, or the connection was given up.
    Closed,
}

/// What has just happened on a connection.
#[derive(Debug)]
pub enum Event {
    /// The one read has delivered these bytes.
    Received(Vec<u8>),
    /// The body was decoded: a chat message, or nothing where it holds none.
    Decoded(Option<ChatMessage>),
    /// The answer was encoded as this JSON text.
    Encoded(String),
    /// Reading, encoding or writing has failed.
    Failed,
}

/// What is to be done next on a connection.
#[derive(Debug)]
pub enum Action {
    /// Decode these bytes as a chat message and report the outcome.
    Decode(Vec<u8>),
    /// Encode this answer as JSON and report the text.
    Encode(ChatMessage),
    /// Write this reply, whole, and close the connection.
    Send(HttpResponse),
    /// Close the connection without a reply.
    Close,
}

/// An event as sequences.
pub enum EventView {
    Received(Seq<u8>),
    Decoded(Option<ChatMessageView>),
    Encoded(Seq<char>),
    Failed,
}

/// An action as sequences.
pub enum ActionView {
    Decode(Seq<u8>),
    Encode(ChatMessageView),
    Send(ResponseView),
    Close,
}

impl View for Event {
    type V = EventView;

    open spec fn view(&self) -> EventView {
        match *self {
            Event::Received(raw) => EventView::Received(raw@),
            Event::Decoded(decoded) => EventView::Decoded(
                match decoded {
                    Some(m) => Some(m@),
                    None => None,
                },
            ),
            Event::Encoded(json) => EventView::Encoded(json@),
            Event::Failed => EventView::Failed,
        }
    }
}

impl View for Action {
    type V = ActionView;

    open spec fn view(&self) -> ActionView {
        match *self {
            Action::Decode(body) => ActionView::Decode(body@),
            Action::Encode(m) => ActionView::Encode(m@),
            Action::Send(r) => ActionView::Send(r@),
            Action::Close => ActionView::Close,
        }
    }
}

/// The part of the delivered bytes that is looked at.
pub open spec fn first_read(raw: Seq<u8>) -> Seq<u8> {
    if raw.len() > READ_BUFFER_SIZE {
        raw.take(READ_BUFFER_SIZE as int)
    } else {
        raw
    }
}

/// What a request leads to: a posted chat message has its body decoded, the
/// other two branches are answered at once.
pub open spec fn answer_request(req: RequestView) -> (State, ActionView) {
    match route_of(req) {
        Route::Chat => (State::AwaitingDecode, ActionView::Decode(req.raw_body)),
        Route::Preflight => (State::Closed, ActionView::Send(preflight())),
        Route::Fallback => (State::Closed, ActionView::Send(method_not_allowed())),
    }
}

/// The next state and what is to be done, for every state and every event. An
/// event that the state does not wait for gives the connection up.
pub open spec fn step(state: State, event: EventView) -> (State, ActionView) {
    match (state, event) {
        (State::AwaitingRequest, EventView::Received(raw)) => answer_request(
            parse_text(encode_utf8(lossy_text(first_read(raw)))),
        ),
        (State::AwaitingDecode, EventView::Decoded(Some(m))) => (
            State::AwaitingEncode,
            ActionView::Encode(reply_to(m)),
        ),
        (State::AwaitingDecode, EventView::Decoded(None)) => (
            State::Closed,
            ActionView::Send(bad_request()),
        ),
        (State::AwaitingEncode, EventView::Encoded(json)) => (
            State::Closed,
            ActionView::Send(chat_reply(encode_utf8(json))),
        ),
        _ => (State::Closed, ActionView::Close),
    }
}

/// The two content types that the service names fit in one line.
pub proof fn lemma_content_types_are_plain()
    ensures
        is_plain("application/json"@),
        is_plain("text/plain"@),
{
    reveal_strlit("application/json");
    reveal_strlit("text/plain");
}

/// Whatever state a connection is in and whatever happens on it, a reply that is
/// sent declares the exact length of its body and carries the three fixed
/// headers; and on the wire its body is all that follows the first empty line.
pub proof fn lemma_replies_are_framed(state: State, event: EventView)
    ensures
        step(state, event).1 matches ActionView::Send(r) ==> {
            &&& is_framed(r)
            &&& allows_cross_origin(r)
            &&& body_of(wire(r)) == r.body
            &&& wire(r).len() == encode_utf8(head(r)).len() + r.body.len()
        },
{
    lemma_content_types_are_plain();
    if let ActionView::Send(r) = step(state, event).1 {
        let content_type = if r == preflight() {
            None
        } else if r == bad_request() || r == method_not_allowed() {
            Some("text/plain"@)
        } else {
            Some("application/json"@)
        };
        assert(r == framed(r.status, content_type, r.body));
        lemma_framed(r.status, content_type, r.body);
        lemma_framed_is_plain(r.status, content_type, r.body);
        lemma_body_is_read_back(r);
        lemma_body_follows_head(r);
    }
}

/// A request whose text begins with `OPTIONS /api/chat` is answered at once:
/// status 200, no body, no content type, the three fixed headers.
pub proof fn lemma_preflight_is_granted(text: Seq<u8>)
    requires
        options_prefix().is_prefix_of(text),
    ensures
        answer_request(parse_text(text)) == (State::Closed, ActionView::Send(preflight())),
        preflight().status.code_of() == 200,
        preflight().body.len() == 0,
        content_type_of(preflight()).is_none(),
        allows_cross_origin(preflight()),
        is_framed(preflight()),
{
    lemma_route_by_prefix(text);
    lemma_protocol_words();
    assert(!post_prefix().is_prefix_of(text)) by {
        assert(options_prefix()[0] != post_prefix()[0]);
        assert(text.subrange(0, options_prefix().len() as int)[0] == text[0]);
        if post_prefix().is_prefix_of(text) {
            assert(text.subrange(0, post_prefix().len() as int)[0] == text[0]);
        }
    }
    lemma_framed(Status::Success, None, Seq::empty());
}

/// A request whose text begins with neither `POST /api/chat` nor
/// `OPTIONS /api/chat` is refused at once, whatever its verb and path: status
/// 405, a fixed body in plain text.
pub proof fn lemma_other_requests_are_refused(text: Seq<u8>)
    requires
        !post_prefix().is_prefix_of(text),
        !options_prefix().is_prefix_of(text),
    ensures
        answer_request(parse_text(text)) == (
            State::Closed,
            ActionView::Send(method_not_allowed()),
        ),
        method_not_allowed().status.code_of() == 405,
        method_not_allowed().body == encode_utf8("Method not allowed for this route"@),
        content_type_of(method_not_allowed()) == Some("text/plain"@),
        allows_cross_origin(method_not_allowed()),
        is_framed(method_not_allowed()),
{
    lemma_route_by_prefix(text);
    lemma_framed(
        Status::MethodNotAllowed,
        Some("text/plain"@),
        encode_utf8("Method not allowed for this route"@),
    );
}

/// A request whose text begins with `POST /api/chat` has its body decoded: all
/// that follows the first empty line, or the whole text where there is none.
pub proof fn lemma_posted_body_is_decoded(text: Seq<u8>)
    requires
        post_prefix().is_prefix_of(text),
    ensures
        answer_request(parse_text(text)) == (
            State::AwaitingDecode,
            ActionView::Decode(body_of(text)),
        ),
{
    lemma_route_by_prefix(text);
}

/// A posted body that holds no chat message is refused: status 400, a fixed body
/// in plain text. No answer is made.
pub proof fn lemma_undecodable_body_is_refused()
    ensures
        step(State::AwaitingDecode, EventView::Decoded(None)) == (
            State::Closed,
            ActionView::Send(bad_request()),
        ),
        bad_request().status.code_of() == 400,
        bad_request().body == encode_utf8("Invalid JSON payload"@),
        content_type_of(bad_request()) == Some("text/plain"@),
        allows_cross_origin(bad_request()),
        is_framed(bad_request()),
{
    lemma_framed(Status::BadRequest, Some("text/plain"@), encode_utf8("Invalid JSON payload"@));
}

/// A posted body that holds the chat message `m` is answered with the reply to
/// `m`, and with nothing else: once that reply is encoded as `json`, it goes out
/// with status 200 as JSON, and its body is `json` byte for byte.
pub proof fn lemma_chat_message_is_answered(m: ChatMessageView, json: Seq<char>)
    ensures
        step(State::AwaitingDecode, EventView::Decoded(Some(m))) == (
            State::AwaitingEncode,
            ActionView::Encode(reply_to(m)),
        ),
        step(State::AwaitingEncode, EventView::Encoded(json)) == (
            State::Closed,
            ActionView::Send(chat_reply(encode_utf8(json))),
        ),
        chat_reply(encode_utf8(json)).status.code_of() == 200,
        chat_reply(encode_utf8(json)).body == encode_utf8(json),
        content_type_of(chat_reply(encode_utf8(json))) == Some("application/json"@),
        allows_cross_origin(chat_reply(encode_utf8(json))),
        is_framed(chat_reply(encode_utf8(json))),
{
    lemma_framed(Status::Success, Some("application/json"@), encode_utf8(json));
}

/// A body that is handed out to be decoded is well-formed UTF-8, whatever
/// bytes the connection delivered.
pub proof fn lemma_body_to_decode_is_text(raw: Seq<u8>)
    ensures
        step(State::AwaitingRequest, EventView::Received(raw)).1 matches ActionView::Decode(body)
            ==> valid_utf8(body),
{
    let text = encode_utf8(lossy_text(first_read(raw)));
    encode_utf8_valid_utf8(lossy_text(first_read(raw)));
    lemma_parts_are_text(text);
}

/// How far a connection has come.
pub open spec fn progress(state: State) -> nat {
    match state {
        State::AwaitingRequest => 0,
        State::AwaitingDecode => 1,
        State::AwaitingEncode => 2,
        State::Closed => 3,
    }
}

/// A connection gets one reply at most: every event takes it further, a reply or
/// a close ends it, and once ended it stays so and is told nothing but to close.
pub proof fn lemma_one_reply_at_most(state: State, event: EventView)
    ensures
        state != State::Closed ==> progress(step(state, event).0) > progress(state),
        step(state, event).1 is Send || step(state, event).1 is Close <==> step(state, event).0
            == State::Closed,
        state == State::Closed ==> step(state, event) == (State::Closed, ActionView::Close),
{
}

/// What a request leads to.
pub fn answer(req: IncomingRequest) -> (next: (State, Action))
    ensures
        (next.0, next.1@) == answer_request(req@),
{
    match req.route() {
        Route::Chat => (State::AwaitingDecode, Action::Decode(req.raw_body)),
        Route::Preflight => (State::Closed, Action::Send(HttpResponse::preflight())),
        Route::Fallback => (State::Closed, Action::Send(HttpResponse::method_not_allowed())),
    }
}

/// One connection.
#[derive(Debug)]
pub struct Connection {
    state: State,
}

impl View for Connection {
    type V = State;

    closed spec fn view(&self) -> State {
        self.state
    }
}

impl Connection {
    /// A connection on which nothing has been read yet.
    pub fn new() -> (c: Connection)
        ensures
            c@ == State::AwaitingRequest,
    {
        Connection { state: State::AwaitingRequest }
    }

    /// Where this connection stands.
    pub fn state(&self) -> (s: State)
        ensures
            s == self@,
    {
        self.state
    }

    /// Takes note of `event` and says what is to be done next.
    ///
    /// Where the bytes of a request are well-formed UTF-8, the request is read from
    /// them as they stand.
    pub fn handle(&mut self, event: Event) -> (action: Action)
        ensures
            (final(self)@, action@) == step(old(self)@, event@),
            old(self)@ == State::AwaitingRequest ==> (event@ matches EventView::Received(raw)
                ==> valid_utf8(first_read(raw)) ==> (final(self)@, action@) == answer_request(
                parse_text(first_read(raw)),
            )),
    {
        let (next, action) = match self.state {
            State::AwaitingRequest => match event {
                Event::Received(raw) => {
                    let n: usize = if raw.len() > READ_BUFFER_SIZE {
                        READ_BUFFER_SIZE
                    } else {
                        raw.len()
                    };
                    let read = slice_subrange(raw.as_slice(), 0, n);
                    proof {
                        assert(read@ =~= first_read(raw@));
                    }
                    answer(IncomingRequest::parse(read))
                },
                _ => (State::Closed, Action::Close),
            },
            State::AwaitingDecode => match event {
                Event::Decoded(Some(m)) => (
                    State::AwaitingEncode,
                    Action::Encode(process_message(&m)),
                ),
                Event::Decoded(None) => (State::Closed, Action::Send(HttpResponse::bad_request())),
                _ => (State::Closed, Action::Close),
            },
            State::AwaitingEncode => match event {
                Event::Encoded(json) => (
                    State::Closed,
                    Action::Send(HttpResponse::chat_reply(json.as_str())),
                ),
                _ => (State::Closed, Action::Close),
            },
            State::Closed => (State::Closed, Action::Close),
        };
        self.state = next;
        action
    }
}

} // verus!
