//! What the service reads out of the text of one request: the verb, the path and
//! the body, and from the first two the branch that answers it.

use crate::text::{copy_range, decode_lossy, find, first_occurrence, lemma_cut_at_ascii};
use crate::text::{lemma_search_from, lossy_text, matches_at, starts_with};
use vstd::prelude::*;
use vstd::utf8::{decode_utf8_encode_utf8, encode_utf8, encode_utf8_valid_utf8, is_ascii_chars};
use vstd::utf8::{is_ascii_chars_encode_utf8, valid_utf8};

verus! {

/// The verb of a request, as far as the service tells verbs apart.
#[derive(Clone, Copy, Debug, PartialEq, Eq, Structural)]
pub enum Verb {
    Post,
    Options,
    Other,
}

/// The branch of the protocol that answers a request.
#[derive(Clone, Copy, Debug, PartialEq, Eq, Structural)]
pub enum Route {
    /// A chat message was posted: its body is to be decoded.
    Chat,
    /// A browser asks leave to post from another origin.
    Preflight,
    /// Anything else.
    Fallback,
}

/// One request, as read from the text that a connection delivered.
#[derive(Debug)]
pub struct IncomingRequest {
    pub verb: Verb,
    pub path: Vec<u8>,
    pub raw_body: Vec<u8>,
}

/// A request as a verb and two byte sequences.
pub struct RequestView {
    pub verb: Verb,
    pub path: Seq<u8>,
    pub raw_body: Seq<u8>,
}

impl View for IncomingRequest {
    type V = RequestView;

    open spec fn view(&self) -> RequestView {
        RequestView { verb: self.verb, path: self.path@, raw_body: self.raw_body@ }
    }
}

/// A space, a carriage return or a line feed: what ends a word of the request line.
pub open spec fn is_delimiter(b: u8) -> bool {
    b == 0x20 || b == 0x0d || b == 0x0a
}

/// The index of the first delimiter at or after `from`, or the length of `s` where
/// there is none.
pub open spec fn token_end(s: Seq<u8>, from: int) -> int
    decreases s.len() - from,
{
    if from < 0 || from >= s.len() || is_delimiter(s[from]) {
        from
    } else {
        token_end(s, from + 1)
    }
}

/// The verb of a posted chat message.
pub open spec fn post_token() -> Seq<u8> {
    encode_utf8("POST"@)
}

/// The verb of a preflight request.
pub open spec fn options_token() -> Seq<u8> {
    encode_utf8("OPTIONS"@)
}

/// The one path that the service serves.
pub open spec fn chat_path() -> Seq<u8> {
    encode_utf8("/api/chat"@)
}

/// The empty line that parts the header block from the body.
pub open spec fn separator() -> Seq<u8> {
    encode_utf8("\r\n\r\n"@)
}

/// The verb: the first word of the text, where it is one of the two that the
/// service knows.
pub open spec fn verb_of(s: Seq<u8>) -> Verb {
    let word = s.subrange(0, token_end(s, 0));
    if word == post_token() {
        Verb::Post
    } else if word == options_token() {
        Verb::Options
    } else {
        Verb::Other
    }
}

/// The path: the second word of the text, where a single space parts it from the
/// first; empty otherwise.
pub open spec fn path_of(s: Seq<u8>) -> Seq<u8> {
    let e = token_end(s, 0);
    if e < s.len() && s[e] == 0x20 {
        s.subrange(e + 1, token_end(s, e + 1))
    } else {
        Seq::empty()
    }
}

/// The body: all that follows the first empty line, or the whole text where there
/// is no empty line.
pub open spec fn body_of(s: Seq<u8>) -> Seq<u8> {
    match first_occurrence(s, separator()) {
        Some(i) => s.skip(i + separator().len()),
        None => s,
    }
}

/// The request that the text `s` holds.
pub open spec fn parse_text(s: Seq<u8>) -> RequestView {
    RequestView { verb: verb_of(s), path: path_of(s), raw_body: body_of(s) }
}

/// The branch that answers `r`: the two known verbs are served on paths that
/// begin with the chat path, and nothing else is.
pub open spec fn route_of(r: RequestView) -> Route {
    if chat_path().is_prefix_of(r.path) {
        match r.verb {
            Verb::Post => Route::Chat,
            Verb::Options => Route::Preflight,
            Verb::Other => Route::Fallback,
        }
    } else {
        Route::Fallback
    }
}

/// Where a word ends: no delimiter stands inside it, and one stands behind it
/// unless the text ends there.
pub proof fn lemma_token_end(s: Seq<u8>, from: int)
    requires
        0 <= from <= s.len(),
    ensures
        from <= token_end(s, from) <= s.len(),
        forall|k: int| from <= k < token_end(s, from) ==> !is_delimiter(#[trigger] s[k]),
        token_end(s, from) < s.len() ==> is_delimiter(s[token_end(s, from)]),
    decreases s.len() - from,
{
    if from < s.len() && !is_delimiter(s[from]) {
        lemma_token_end(s, from + 1);
    }
}

/// A word that begins at `from` reaches at least to `to` where no delimiter stands
/// between the two.
pub proof fn lemma_token_end_reaches(s: Seq<u8>, from: int, to: int)
    requires
        0 <= from <= to <= s.len(),
        forall|k: int| from <= k < to ==> !is_delimiter(#[trigger] s[k]),
    ensures
        token_end(s, from) == token_end(s, to),
    decreases to - from,
{
    if from < to {
        lemma_token_end_reaches(s, from + 1, to);
    }
}

/// The text with which a posted chat message begins.
pub open spec fn post_prefix() -> Seq<u8> {
    encode_utf8("POST /api/chat"@)
}

/// The text with which a preflight request begins.
pub open spec fn options_prefix() -> Seq<u8> {
    encode_utf8("OPTIONS /api/chat"@)
}

/// The branch by the way the text begins, and by nothing else.
pub open spec fn route_by_prefix(s: Seq<u8>) -> Route {
    if post_prefix().is_prefix_of(s) {
        Route::Chat
    } else if options_prefix().is_prefix_of(s) {
        Route::Preflight
    } else {
        Route::Fallback
    }
}

/// The bytes of the words that the service looks for.
pub proof fn lemma_protocol_words()
    ensures
        post_token() == seq![0x50u8, 0x4f, 0x53, 0x54],
        options_token() == seq![0x4fu8, 0x50, 0x54, 0x49, 0x4f, 0x4e, 0x53],
        chat_path() == seq![0x2fu8, 0x61, 0x70, 0x69, 0x2f, 0x63, 0x68, 0x61, 0x74],
        post_prefix() == post_token() + seq![0x20u8] + chat_path(),
        options_prefix() == options_token() + seq![0x20u8] + chat_path(),
        separator() == seq![0x0du8, 0x0a, 0x0d, 0x0a],
{
    reveal_strlit("POST");
    reveal_strlit("OPTIONS");
    reveal_strlit("/api/chat");
    reveal_strlit("POST /api/chat");
    reveal_strlit("OPTIONS /api/chat");
    reveal_strlit("\r\n\r\n");
    assert(is_ascii_chars("POST"@));
    assert(is_ascii_chars("OPTIONS"@));
    assert(is_ascii_chars("/api/chat"@));
    assert(is_ascii_chars("POST /api/chat"@));
    assert(is_ascii_chars("OPTIONS /api/chat"@));
    assert(is_ascii_chars("\r\n\r\n"@));
    is_ascii_chars_encode_utf8("POST"@);
    is_ascii_chars_encode_utf8("OPTIONS"@);
    is_ascii_chars_encode_utf8("/api/chat"@);
    is_ascii_chars_encode_utf8("POST /api/chat"@);
    is_ascii_chars_encode_utf8("OPTIONS /api/chat"@);
    is_ascii_chars_encode_utf8("\r\n\r\n"@);
    assert(post_token() =~= seq![0x50u8, 0x4f, 0x53, 0x54]);
    assert(options_token() =~= seq![0x4fu8, 0x50, 0x54, 0x49, 0x4f, 0x4e, 0x53]);
    assert(chat_path() =~= seq![0x2fu8, 0x61, 0x70, 0x69, 0x2f, 0x63, 0x68, 0x61, 0x74]);
    assert(post_prefix() =~= post_token() + seq![0x20u8] + chat_path());
    assert(options_prefix() =~= options_token() + seq![0x20u8] + chat_path());
    assert(separator() =~= seq![0x0du8, 0x0a, 0x0d, 0x0a]);
}

/// A request is answered by the way its text begins: one that begins with
/// `POST /api/chat` is a posted chat message, one that begins with
/// `OPTIONS /api/chat` is a preflight request, and every other text falls through.
/// Reading the verb and the path word by word decides no differently.
pub proof fn lemma_route_by_prefix(s: Seq<u8>)
    ensures
        route_of(parse_text(s)) == route_by_prefix(s),
{
    lemma_protocol_words();
    lemma_token_end(s, 0);
    let e = token_end(s, 0);
    let word = s.subrange(0, e);
    if post_prefix().is_prefix_of(s) || options_prefix().is_prefix_of(s) {
        let n: int = if post_prefix().is_prefix_of(s) { 4 } else { 7 };
        let prefix = if post_prefix().is_prefix_of(s) { post_prefix() } else { options_prefix() };
        assert(prefix.len() == n + 10);
        assert(forall|k: int| 0 <= k < n + 10 ==> s[k] == s.subrange(0, n + 10)[k]);
        assert(forall|k: int| 0 <= k < n + 10 ==> s[k] == prefix[k]);
        assert(forall|k: int| 0 <= k < n ==> !is_delimiter(#[trigger] s[k]));
        lemma_token_end_reaches(s, 0, n);
        assert(e == n);
        assert(word =~= prefix.subrange(0, n));
        assert(forall|k: int| n + 1 <= k < n + 10 ==> !is_delimiter(#[trigger] s[k]));
        lemma_token_end_reaches(s, n + 1, n + 10);
        lemma_token_end(s, n + 10);
        let path = path_of(s);
        assert(path == s.subrange(n + 1, token_end(s, n + 1)));
        assert(path.subrange(0, 9) =~= chat_path());
        if post_prefix().is_prefix_of(s) {
            assert(word =~= post_token());
        } else {
            assert(word =~= options_token());
            assert(word.len() != post_token().len());
        }
    } else {
        let r = parse_text(s);
        if chat_path().is_prefix_of(r.path) && r.verb != Verb::Other {
            let n: int = if r.verb == Verb::Post { 4 } else { 7 };
            assert(word.len() == n);
            assert(e == n);
            assert(r.path.len() >= 9);
            lemma_token_end(s, e + 1);
            let p = token_end(s, e + 1);
            assert(r.path == s.subrange(e + 1, p));
            assert(forall|k: int| 0 <= k < 9 ==> r.path.subrange(0, 9)[k] == r.path[k]);
            assert(forall|k: int| 0 <= k < 9 ==> s[e + 1 + k] == chat_path()[k]);
            assert(forall|k: int| 0 <= k < n ==> s[k] == word[k]);
            let prefix = if r.verb == Verb::Post { post_prefix() } else { options_prefix() };
            assert(s.subrange(0, n + 10) =~= prefix);
        }
    }
}

/// What is read out of well-formed text is well-formed text: the path and the
/// body are cut where ASCII bytes stand.
pub proof fn lemma_parts_are_text(s: Seq<u8>)
    requires
        valid_utf8(s),
    ensures
        valid_utf8(path_of(s)),
        valid_utf8(body_of(s)),
{
    lemma_protocol_words();
    lemma_token_end(s, 0);
    let e = token_end(s, 0);
    if e < s.len() && s[e] == 0x20 {
        lemma_token_end(s, e + 1);
        lemma_cut_at_ascii(s, e + 1, token_end(s, e + 1));
    }
    lemma_search_from(s, separator(), 0);
    match first_occurrence(s, separator()) {
        Some(i) => {
            assert(s.subrange(i, i + 4)[3] == s[i + 3]);
            lemma_cut_at_ascii(s, i + 4, s.len() as int);
        },
        None => {},
    }
}

fn scan_token(s: &[u8], from: usize) -> (end: usize)
    requires
        from <= s.len(),
    ensures
        end == token_end(s@, from as int),
        from <= end <= s.len(),
{
    let mut i: usize = from;
    while i < s.len() && !(s[i] == 0x20 || s[i] == 0x0d || s[i] == 0x0a)
        invariant
            from <= i <= s.len(),
            token_end(s@, from as int) == token_end(s@, i as int),
        decreases s.len() - i,
    {
        i += 1;
    }
    i
}

fn word_is(s: &[u8], end: usize, word: &[u8]) -> (r: bool)
    requires
        end <= s.len(),
    ensures
        r == (s@.subrange(0, end as int) == word@),
{
    if end != word.len() {
        assert(s@.subrange(0, end as int).len() != word@.len());
        return false;
    }
    matches_at(s, word, 0)
}

impl IncomingRequest {
    /// Reads the request out of its text.
    pub fn from_text(text: &str) -> (req: IncomingRequest)
        ensures
            req@ == parse_text(encode_utf8(text@)),
            valid_utf8(req.path@),
            valid_utf8(req.raw_body@),
    {
        proof {
            encode_utf8_valid_utf8(text@);
            lemma_parts_are_text(encode_utf8(text@));
        }
        let s = text.as_bytes();
        let e = scan_token(s, 0);
        let verb = if word_is(s, e, "POST".as_bytes()) {
            Verb::Post
        } else if word_is(s, e, "OPTIONS".as_bytes()) {
            Verb::Options
        } else {
            Verb::Other
        };
        let path = if e < s.len() && s[e] == 0x20 {
            let p = scan_token(s, e + 1);
            copy_range(s, e + 1, p)
        } else {
            Vec::new()
        };
        let sep = "\r\n\r\n".as_bytes();
        let raw_body = match find(s, sep) {
            Some(i) => {
                proof {
                    lemma_search_from(s@, sep@, 0);
                }
                copy_range(s, i + sep.len(), s.len())
            },
            None => copy_range(s, 0, s.len()),
        };
        proof {
            assert(s@.subrange(0, s@.len() as int) =~= s@);
        }
        IncomingRequest { verb, path, raw_body }
    }

    /// Reads the request out of the bytes that a connection delivered: they are
    /// decoded as text, malformed sequences replaced, and the text is read. Bytes
    /// that are well-formed UTF-8 are read as they stand.
    pub fn parse(raw: &[u8]) -> (req: IncomingRequest)
        ensures
            req@ == parse_text(encode_utf8(lossy_text(raw@))),
            valid_utf8(raw@) ==> req@ == parse_text(raw@),
            valid_utf8(req.path@),
            valid_utf8(req.raw_body@),
    {
        let text = decode_lossy(raw);
        proof {
            if valid_utf8(raw@) {
                decode_utf8_encode_utf8(raw@);
            }
        }
        IncomingRequest::from_text(text.as_str())
    }

    /// The branch that answers this request.
    pub fn route(&self) -> (r: Route)
        ensures
            r == route_of(self@),
    {
        if starts_with(self.path.as_slice(), "/api/chat".as_bytes()) {
            match self.verb {
                Verb::Post => Route::Chat,
                Verb::Options => Route::Preflight,
                Verb::Other => Route::Fallback,
            }
        } else {
            Route::Fallback
        }
    }
}

} // verus!
