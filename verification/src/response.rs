//! Replies: the status, the headers in their order, the body, and the bytes that
//! go out on the wire.

use vstd::prelude::*;
use vstd::string::{StrSliceExecFns, StringExecFns};
use crate::request::{body_of, lemma_protocol_words, separator};
use crate::text::{first_occurrence, lemma_search_from, occurs_at};
use vstd::utf8::{encode_utf8, is_ascii_chars, is_ascii_chars_encode_utf8};

verus! {

/// The three outcomes that a request can have.
#[derive(Clone, Copy, Debug, PartialEq, Eq, Structural)]
pub enum Status {
    Success,
    BadRequest,
    MethodNotAllowed,
}

impl Status {
    /// The status code.
    pub open spec fn code_of(self) -> nat {
        match self {
            Status::Success => 200,
            Status::BadRequest => 400,
            Status::MethodNotAllowed => 405,
        }
    }

    /// The words that follow the code in the status line.
    pub open spec fn reason_of(self) -> Seq<char> {
        match self {
            Status::Success => "OK"@,
            Status::BadRequest => "Bad Request"@,
            Status::MethodNotAllowed => "Method Not Allowed"@,
        }
    }

    /// The status code.
    pub fn code(self) -> (c: u16)
        ensures
            c == self.code_of(),
    {
        match self {
            Status::Success => 200,
            Status::BadRequest => 400,
            Status::MethodNotAllowed => 405,
        }
    }

    /// The words that follow the code in the status line.
    pub fn reason(self) -> (r: &'static str)
        ensures
            r@ == self.reason_of(),
    {
        match self {
            Status::Success => "OK",
            Status::BadRequest => "Bad Request",
            Status::MethodNotAllowed => "Method Not Allowed",
        }
    }
}

/// The decimal digit for `d`.
pub open spec fn digit(d: nat) -> char {
    if d == 0 {
        '0'
    } else if d == 1 {
        '1'
    } else if d == 2 {
        '2'
    } else if d == 3 {
        '3'
    } else if d == 4 {
        '4'
    } else if d == 5 {
        '5'
    } else if d == 6 {
        '6'
    } else if d == 7 {
        '7'
    } else if d == 8 {
        '8'
    } else {
        '9'
    }
}

/// `n` written in decimal, without leading zeros.
pub open spec fn decimal(n: nat) -> Seq<char>
    decreases n,
{
    if n < 10 {
        seq![digit(n)]
    } else {
        decimal(n / 10).push(digit(n % 10))
    }
}

/// The number that a decimal digit stands for.
pub open spec fn digit_value(c: char) -> Option<nat> {
    if c == '0' {
        Some(0)
    } else if c == '1' {
        Some(1)
    } else if c == '2' {
        Some(2)
    } else if c == '3' {
        Some(3)
    } else if c == '4' {
        Some(4)
    } else if c == '5' {
        Some(5)
    } else if c == '6' {
        Some(6)
    } else if c == '7' {
        Some(7)
    } else if c == '8' {
        Some(8)
    } else if c == '9' {
        Some(9)
    } else {
        None
    }
}

/// The number that a run of decimal digits stands for; nothing for the empty run
/// and for one that holds anything but digits.
pub open spec fn decimal_value(s: Seq<char>) -> Option<nat>
    decreases s.len(),
{
    if s.len() == 0 {
        None
    } else {
        match digit_value(s.last()) {
            None => None,
            Some(d) => if s.len() == 1 {
                Some(d)
            } else {
                match decimal_value(s.drop_last()) {
                    Some(v) => Some(v * 10 + d),
                    None => None,
                }
            },
        }
    }
}

/// A number written in decimal reads back as itself.
pub proof fn lemma_decimal_round_trip(n: nat)
    ensures
        decimal(n).len() >= 1,
        decimal_value(decimal(n)) == Some(n),
    decreases n,
{
    if n >= 10 {
        lemma_decimal_round_trip(n / 10);
        let s = decimal(n);
        assert(s.drop_last() =~= decimal(n / 10));
        assert(s.last() == digit(n % 10));
    }
}

fn digit_str(d: usize) -> (r: &'static str)
    requires
        d < 10,
    ensures
        r@ == seq![digit(d as nat)],
{
    proof {
        reveal_strlit("0");
        reveal_strlit("1");
        reveal_strlit("2");
        reveal_strlit("3");
        reveal_strlit("4");
        reveal_strlit("5");
        reveal_strlit("6");
        reveal_strlit("7");
        reveal_strlit("8");
        reveal_strlit("9");
    }
    let r = match d {
        0 => "0",
        1 => "1",
        2 => "2",
        3 => "3",
        4 => "4",
        5 => "5",
        6 => "6",
        7 => "7",
        8 => "8",
        _ => "9",
    };
    assert(r@ =~= seq![digit(d as nat)]);
    r
}

/// `n` written in decimal.
pub fn decimal_string(n: usize) -> (r: String)
    ensures
        r@ == decimal(n as nat),
    decreases n,
{
    if n < 10 {
        String::from_str(digit_str(n))
    } else {
        let mut r = decimal_string(n / 10);
        r.append(digit_str(n % 10));
        r
    }
}

/// One header: a name and a value.
#[derive(Debug)]
pub struct Header {
    pub name: String,
    pub value: String,
}

impl View for Header {
    type V = (Seq<char>, Seq<char>);

    open spec fn view(&self) -> (Seq<char>, Seq<char>) {
        (self.name@, self.value@)
    }
}

impl Header {
    /// The header of that name and value.
    pub fn new(name: &str, value: &str) -> (h: Header)
        ensures
            h@ == (name@, value@),
    {
        Header { name: String::from_str(name), value: String::from_str(value) }
    }
}

/// One reply: built once, sent once.
#[derive(Debug)]
pub struct HttpResponse {
    pub status: Status,
    pub headers: Vec<Header>,
    pub body: Vec<u8>,
}

/// A reply as a status, a sequence of name and value pairs and a byte sequence.
pub struct ResponseView {
    pub status: Status,
    pub headers: Seq<(Seq<char>, Seq<char>)>,
    pub body: Seq<u8>,
}

impl View for HttpResponse {
    type V = ResponseView;

    open spec fn view(&self) -> ResponseView {
        ResponseView {
            status: self.status,
            headers: self.headers@.map_values(|h: Header| h@),
            body: self.body@,
        }
    }
}

/// The three headers that every reply carries, so that a page served elsewhere
/// may talk to the service.
pub open spec fn cors_headers() -> Seq<(Seq<char>, Seq<char>)> {
    seq![
        ("Access-Control-Allow-Origin"@, "*"@),
        ("Access-Control-Allow-Methods"@, "POST, OPTIONS"@),
        ("Access-Control-Allow-Headers"@, "Content-Type"@),
    ]
}

/// The reply with the given status and body: the content type where there is
/// one, the three fixed headers, and the length of the body in decimal.
pub open spec fn framed(status: Status, content_type: Option<Seq<char>>, body: Seq<u8>)
    -> ResponseView {
    let first: Seq<(Seq<char>, Seq<char>)> = match content_type {
        Some(t) => seq![("Content-Type"@, t)],
        None => seq![],
    };
    ResponseView {
        status,
        headers: first + cors_headers() + seq![("Content-Length"@, decimal(body.len()))],
        body,
    }
}

/// The reply to a chat message, given the JSON text of the answer.
pub open spec fn chat_reply(json: Seq<u8>) -> ResponseView {
    framed(Status::Success, Some("application/json"@), json)
}

/// The reply to a posted body that is no chat message.
pub open spec fn bad_request() -> ResponseView {
    framed(Status::BadRequest, Some("text/plain"@), encode_utf8("Invalid JSON payload"@))
}

/// The reply to a preflight request.
pub open spec fn preflight() -> ResponseView {
    framed(Status::Success, None, Seq::empty())
}

/// The reply to every request that is neither of the two that the service knows.
pub open spec fn method_not_allowed() -> ResponseView {
    framed(
        Status::MethodNotAllowed,
        Some("text/plain"@),
        encode_utf8("Method not allowed for this route"@),
    )
}

/// The status line.
pub open spec fn status_line(status: Status) -> Seq<char> {
    "HTTP/1.1 "@ + decimal(status.code_of()) + " "@ + status.reason_of() + "\r\n"@
}

/// The header block: one line for each header, in order.
pub open spec fn header_lines(headers: Seq<(Seq<char>, Seq<char>)>) -> Seq<char>
    decreases headers.len(),
{
    if headers.len() == 0 {
        Seq::empty()
    } else {
        header_lines(headers.drop_last()) + headers.last().0 + ": "@ + headers.last().1 + "\r\n"@
    }
}

/// All that goes before the body: the status line, the header block and the
/// empty line.
pub open spec fn head(r: ResponseView) -> Seq<char> {
    status_line(r.status) + header_lines(r.headers) + "\r\n"@
}

/// The bytes of the reply on the wire: the head, then the body.
pub open spec fn wire(r: ResponseView) -> Seq<u8> {
    encode_utf8(head(r)) + r.body
}

/// The value of the first header of that name.
pub open spec fn header_value(headers: Seq<(Seq<char>, Seq<char>)>, name: Seq<char>) -> Option<
    Seq<char>,
>
    decreases headers.len(),
{
    if headers.len() == 0 {
        None
    } else if headers[0].0 == name {
        Some(headers[0].1)
    } else {
        header_value(headers.drop_first(), name)
    }
}

/// The length that the reply declares for its body.
pub open spec fn declared_length(r: ResponseView) -> Option<nat> {
    match header_value(r.headers, "Content-Length"@) {
        Some(v) => decimal_value(v),
        None => None,
    }
}

/// The reply declares the length that its body has.
pub open spec fn is_framed(r: ResponseView) -> bool {
    declared_length(r) == Some(r.body.len())
}

/// The reply carries each of the three fixed headers, with its fixed value.
pub open spec fn allows_cross_origin(r: ResponseView) -> bool {
    forall|i: int|
        0 <= i < cors_headers().len() ==> header_value(r.headers, #[trigger] cors_headers()[i].0)
            == Some(cors_headers()[i].1)
}

/// The content type that the reply declares, if it declares one.
pub open spec fn content_type_of(r: ResponseView) -> Option<Seq<char>> {
    header_value(r.headers, "Content-Type"@)
}

/// The header at index `k` is the first of its name where none before it has
/// that name.
pub proof fn lemma_header_value_at(headers: Seq<(Seq<char>, Seq<char>)>, name: Seq<char>, k: int)
    requires
        0 <= k < headers.len(),
        headers[k].0 == name,
        forall|j: int| 0 <= j < k ==> headers[j].0 != name,
    ensures
        header_value(headers, name) == Some(headers[k].1),
    decreases k,
{
    if k > 0 {
        let rest = headers.drop_first();
        assert(forall|j: int| 0 <= j < rest.len() ==> rest[j] == headers[j + 1]);
        lemma_header_value_at(rest, name, k - 1);
    }
}

/// No header has a name that none of them has.
pub proof fn lemma_header_value_none(headers: Seq<(Seq<char>, Seq<char>)>, name: Seq<char>)
    requires
        forall|j: int| 0 <= j < headers.len() ==> headers[j].0 != name,
    ensures
        header_value(headers, name).is_none(),
    decreases headers.len(),
{
    if headers.len() > 0 {
        let rest = headers.drop_first();
        assert(forall|j: int| 0 <= j < rest.len() ==> rest[j] == headers[j + 1]);
        lemma_header_value_none(rest, name);
    }
}

/// The five header names that the service uses are five different names.
pub proof fn lemma_header_names_differ()
    ensures
        "Content-Type"@ != "Content-Length"@,
        "Content-Type"@ != "Access-Control-Allow-Origin"@,
        "Content-Type"@ != "Access-Control-Allow-Methods"@,
        "Content-Type"@ != "Access-Control-Allow-Headers"@,
        "Content-Length"@ != "Access-Control-Allow-Origin"@,
        "Content-Length"@ != "Access-Control-Allow-Methods"@,
        "Content-Length"@ != "Access-Control-Allow-Headers"@,
        "Access-Control-Allow-Origin"@ != "Access-Control-Allow-Methods"@,
        "Access-Control-Allow-Origin"@ != "Access-Control-Allow-Headers"@,
        "Access-Control-Allow-Methods"@ != "Access-Control-Allow-Headers"@,
{
    reveal_strlit("Content-Type");
    reveal_strlit("Content-Length");
    reveal_strlit("Access-Control-Allow-Origin");
    reveal_strlit("Access-Control-Allow-Methods");
    reveal_strlit("Access-Control-Allow-Headers");
    assert("Content-Type"@.len() == 12);
    assert("Content-Length"@.len() == 14);
    assert("Access-Control-Allow-Origin"@.len() == 27);
    assert("Access-Control-Allow-Methods"@.len() == 28);
    assert("Access-Control-Allow-Headers"@.len() == 28);
    assert("Access-Control-Allow-Methods"@[21] != "Access-Control-Allow-Headers"@[21]);
}

/// Every reply that the service builds declares the exact length of its body,
/// carries the three fixed headers, and names its content type where it has
/// one.
pub proof fn lemma_framed(status: Status, content_type: Option<Seq<char>>, body: Seq<u8>)
    ensures
        is_framed(framed(status, content_type, body)),
        allows_cross_origin(framed(status, content_type, body)),
        content_type_of(framed(status, content_type, body)) == content_type,
        framed(status, content_type, body).status == status,
        framed(status, content_type, body).body == body,
{
    let r = framed(status, content_type, body);
    let h = r.headers;
    lemma_header_names_differ();
    lemma_decimal_round_trip(body.len());
    let c = cors_headers();
    let n: int = if content_type is Some { 1 } else { 0 };
    assert(h.len() == n + 4);
    assert(h[n] == c[0] && h[n + 1] == c[1] && h[n + 2] == c[2]);
    assert(h[n + 3] == ("Content-Length"@, decimal(body.len())));
    if content_type is Some {
        assert(h[0] == ("Content-Type"@, content_type.unwrap()));
        lemma_header_value_at(h, "Content-Type"@, 0);
    } else {
        assert forall|j: int| 0 <= j < h.len() implies h[j].0 != "Content-Type"@ by {
            assert(j == 0 || j == 1 || j == 2 || j == 3);
        }
        lemma_header_value_none(h, "Content-Type"@);
    }
    assert forall|j: int| 0 <= j < n + 3 implies h[j].0 != "Content-Length"@ by {
        assert(j == 0 || j == 1 || j == 2 || j == 3);
    }
    lemma_header_value_at(h, "Content-Length"@, n + 3);
    assert forall|i: int| 0 <= i < c.len() implies header_value(h, #[trigger] c[i].0) == Some(
        c[i].1,
    ) by {
        assert(i == 0 || i == 1 || i == 2);
        assert forall|j: int| 0 <= j < n + i implies h[j].0 != c[i].0 by {
            assert(j == 0 || j == 1 || j == 2 || j == 3);
        }
        lemma_header_value_at(h, c[i].0, n + i);
    }
}

/// On the wire the body follows the head, and it is as long as the reply says:
/// the bytes behind the head, taken to the declared length, are the body, and
/// nothing follows them.
pub proof fn lemma_body_follows_head(r: ResponseView)
    requires
        is_framed(r),
    ensures
        declared_length(r) is Some,
        wire(r).len() == encode_utf8(head(r)).len() + declared_length(r).unwrap(),
        wire(r).subrange(encode_utf8(head(r)).len() as int, wire(r).len() as int) == r.body,
{
    let n = encode_utf8(head(r)).len() as int;
    assert(wire(r).subrange(n, wire(r).len() as int) =~= r.body);
}

proof fn lemma_char_is_not_negative(c: char)
    ensures
        '\0' <= c,
{
}

/// Text that fits in one line: ASCII, with no carriage return and no line feed.
pub open spec fn is_plain(t: Seq<char>) -> bool {
    forall|i: int|
        0 <= i < t.len() ==> (#[trigger] t[i]) != '\r' && t[i] != '\n' && t[i] <= '\u{7f}'
}

/// Text made of whole lines, none of them empty: it is ASCII, it ends with the
/// end of a line, and no end of a line follows another.
pub open spec fn is_lines(t: Seq<char>) -> bool {
    &&& t.len() >= 2
    &&& t[t.len() - 2] == '\r'
    &&& t[t.len() - 1] == '\n'
    &&& forall|i: int| 0 <= i && i + 2 < t.len() && (#[trigger] t[i]) == '\r' ==> t[i + 2] != '\r'
    &&& forall|i: int| 0 <= i < t.len() ==> (#[trigger] t[i]) <= '\u{7f}'
}

/// An empty line stands in `t` at index `i`.
pub open spec fn empty_line_at(t: Seq<char>, i: int) -> bool {
    0 <= i && i + 4 <= t.len() && t[i] == '\r' && t[i + 1] == '\n' && t[i + 2] == '\r' && t[i + 3]
        == '\n'
}

/// Whole lines stay whole lines when one more line is added.
pub proof fn lemma_add_line(t: Seq<char>, line: Seq<char>)
    requires
        t.len() == 0 || is_lines(t),
        is_plain(line),
        line.len() >= 1,
    ensures
        is_lines(t + line + "\r\n"@),
{
    reveal_strlit("\r\n");
    let all = t + line + "\r\n"@;
    assert(all.len() == t.len() + line.len() + 2);
    assert forall|i: int| 0 <= i < all.len() implies (#[trigger] all[i]) <= '\u{7f}' by {
        if i < t.len() {
            assert(all[i] == t[i]);
        } else if i < t.len() + line.len() {
            assert(all[i] == line[i - t.len()]);
        }
    }
    assert forall|i: int| 0 <= i && i + 2 < all.len() && (#[trigger] all[i]) == '\r' implies all[i
        + 2] != '\r' by {
        if i < t.len() {
            assert(all[i] == t[i]);
            if i + 2 < t.len() {
                assert(all[i + 2] == t[i + 2]);
            } else {
                assert(t[t.len() - 1] == '\n');
                assert(i == t.len() - 2);
                assert(all[i + 2] == line[0]);
            }
        } else if i < t.len() + line.len() {
            assert(all[i] == line[i - t.len()]);
        }
    }
}

/// A number in decimal fits in one line.
pub proof fn lemma_decimal_is_plain(n: nat)
    ensures
        is_plain(decimal(n)),
        decimal(n).len() >= 1,
    decreases n,
{
    if n >= 10 {
        lemma_decimal_is_plain(n / 10);
    }
}

/// Plain text followed by plain text is plain.
pub proof fn lemma_plain_concat(a: Seq<char>, b: Seq<char>)
    requires
        is_plain(a),
        is_plain(b),
    ensures
        is_plain(a + b),
{
    assert forall|i: int| 0 <= i < (a + b).len() implies (#[trigger] (a + b)[i]) != '\r' && (a
        + b)[i] != '\n' && (a + b)[i] <= '\u{7f}' by {
        if i < a.len() {
            assert((a + b)[i] == a[i]);
        } else {
            assert((a + b)[i] == b[i - a.len()]);
        }
    }
}

/// The status line is one whole line.
pub proof fn lemma_status_line_is_lines(status: Status)
    ensures
        is_lines(status_line(status)),
{
    reveal_strlit("HTTP/1.1 ");
    reveal_strlit(" ");
    reveal_strlit("OK");
    reveal_strlit("Bad Request");
    reveal_strlit("Method Not Allowed");
    lemma_decimal_is_plain(status.code_of());
    assert(is_plain("HTTP/1.1 "@));
    assert(is_plain(" "@));
    assert(is_plain(status.reason_of()));
    lemma_plain_concat("HTTP/1.1 "@, decimal(status.code_of()));
    lemma_plain_concat("HTTP/1.1 "@ + decimal(status.code_of()), " "@);
    lemma_plain_concat("HTTP/1.1 "@ + decimal(status.code_of()) + " "@, status.reason_of());
    let line = "HTTP/1.1 "@ + decimal(status.code_of()) + " "@ + status.reason_of();
    lemma_add_line(Seq::empty(), line);
    assert(Seq::<char>::empty() + line + "\r\n"@ =~= status_line(status));
}

/// Every name and every value fits in one line.
pub open spec fn headers_are_plain(headers: Seq<(Seq<char>, Seq<char>)>) -> bool {
    forall|i: int|
        0 <= i < headers.len() ==> is_plain((#[trigger] headers[i]).0) && is_plain(headers[i].1)
}

/// Whole lines followed by a header block are whole lines.
pub proof fn lemma_header_lines_are_lines(before: Seq<char>, headers: Seq<(Seq<char>, Seq<char>)>)
    requires
        is_lines(before),
        headers_are_plain(headers),
    ensures
        is_lines(before + header_lines(headers)),
    decreases headers.len(),
{
    if headers.len() == 0 {
        assert(before + header_lines(headers) =~= before);
    } else {
        let rest = headers.drop_last();
        let last = headers.last();
        assert forall|i: int| 0 <= i < rest.len() implies is_plain((#[trigger] rest[i]).0)
            && is_plain(rest[i].1) by {
            assert(rest[i] == headers[i]);
        }
        lemma_header_lines_are_lines(before, rest);
        reveal_strlit(": ");
        assert(is_plain(": "@));
        lemma_plain_concat(last.0, ": "@);
        lemma_plain_concat(last.0 + ": "@, last.1);
        let line = last.0 + ": "@ + last.1;
        lemma_add_line(before + header_lines(rest), line);
        assert(before + header_lines(rest) + line + "\r\n"@ =~= before + header_lines(headers));
    }
}

/// The head of a reply whose headers fit in their lines holds one empty line,
/// at its very end.
pub proof fn lemma_head_ends_at_first_empty_line(r: ResponseView)
    requires
        headers_are_plain(r.headers),
    ensures
        is_ascii_chars(head(r)),
        empty_line_at(head(r), head(r).len() - 4),
        forall|i: int| 0 <= i < head(r).len() - 4 ==> !empty_line_at(head(r), i),
{
    lemma_status_line_is_lines(r.status);
    lemma_header_lines_are_lines(status_line(r.status), r.headers);
    reveal_strlit("\r\n");
    let lines = status_line(r.status) + header_lines(r.headers);
    let h = head(r);
    assert(h.len() == lines.len() + 2);
    assert forall|i: int| 0 <= i < h.len() implies '\0' <= (#[trigger] h[i]) <= '\u{7f}' by {
        if i < lines.len() {
            assert(h[i] == lines[i]);
        } else {
            assert(h[i] == "\r\n"@[i - lines.len()]);
        }
        lemma_char_is_not_negative(h[i]);
    }
    assert forall|i: int| 0 <= i < h.len() - 4 implies !empty_line_at(h, i) by {
        assert(h[i] == lines[i]);
        assert(h[i + 2] == lines[i + 2]);
    }
    assert(h[h.len() - 4] == lines[lines.len() - 2]);
    assert(h[h.len() - 3] == lines[lines.len() - 1]);
}

/// On the wire, the first empty line is the one that ends the head: whoever
/// parts head and body there, as the service does with a request, gets the body
/// back whole.
pub proof fn lemma_body_is_read_back(r: ResponseView)
    requires
        headers_are_plain(r.headers),
    ensures
        first_occurrence(wire(r), separator()) == Some(encode_utf8(head(r)).len() - 4),
        body_of(wire(r)) == r.body,
{
    lemma_head_ends_at_first_empty_line(r);
    lemma_protocol_words();
    let h = head(r);
    let b = encode_utf8(h);
    let w = wire(r);
    let sep = separator();
    is_ascii_chars_encode_utf8(h);
    let k = h.len() - 4;
    assert forall|i: int| 0 <= i < h.len() implies w[i] == h[i] as u8 by {
        assert(w[i] == b[i]);
    }
    assert(occurs_at(w, sep, k)) by {
        assert(w.subrange(k, k + 4) =~= sep);
    }
    assert forall|j: int| 0 <= j < k implies !occurs_at(w, sep, j) by {
        if occurs_at(w, sep, j) {
            let part = w.subrange(j, j + 4);
            assert(part[0] == w[j] && part[1] == w[j + 1] && part[2] == w[j + 2] && part[3] == w[j
                + 3]);
            assert(h[j] == '\r' && h[j + 1] == '\n' && h[j + 2] == '\r' && h[j + 3] == '\n');
            assert(empty_line_at(h, j));
        }
    }
    lemma_search_from(w, sep, 0);
    assert(first_occurrence(w, sep) == Some(k));
    assert(w.skip(k + 4) =~= r.body);
}

/// The headers of every reply that the service builds fit in their lines, where
/// the content type does.
pub proof fn lemma_framed_is_plain(status: Status, content_type: Option<Seq<char>>, body: Seq<u8>)
    requires
        content_type matches Some(t) ==> is_plain(t),
    ensures
        headers_are_plain(framed(status, content_type, body).headers),
{
    let h = framed(status, content_type, body).headers;
    reveal_strlit("Content-Type");
    reveal_strlit("Content-Length");
    reveal_strlit("Access-Control-Allow-Origin");
    reveal_strlit("Access-Control-Allow-Methods");
    reveal_strlit("Access-Control-Allow-Headers");
    reveal_strlit("*");
    reveal_strlit("POST, OPTIONS");
    lemma_decimal_is_plain(body.len());
    assert(is_plain("Content-Type"@));
    assert(is_plain("Content-Length"@));
    assert(is_plain("Access-Control-Allow-Origin"@));
    assert(is_plain("Access-Control-Allow-Methods"@));
    assert(is_plain("Access-Control-Allow-Headers"@));
    assert(is_plain("*"@));
    assert(is_plain("POST, OPTIONS"@));
    let n: int = if content_type is Some { 1 } else { 0 };
    assert(h.len() == n + 4);
    assert forall|i: int| 0 <= i < h.len() implies is_plain((#[trigger] h[i]).0) && is_plain(
        h[i].1,
    ) by {
        assert(i == 0 || i == 1 || i == 2 || i == 3 || i == 4);
        if i >= n {
            assert(i - n == 0 || i - n == 1 || i - n == 2 || i - n == 3);
            if i - n < 3 {
                assert(h[i] == cors_headers()[i - n]);
            }
        }
    }
}

impl HttpResponse {
    fn framed(status: Status, content_type: Option<&str>, body: Vec<u8>) -> (r: HttpResponse)
        ensures
            r@ == framed(
                status,
                match content_type {
                    Some(t) => Some(t@),
                    None => None,
                },
                body@,
            ),
    {
        let mut headers: Vec<Header> = Vec::new();
        if let Some(t) = content_type {
            headers.push(Header::new("Content-Type", t));
        }
        headers.push(Header::new("Access-Control-Allow-Origin", "*"));
        headers.push(Header::new("Access-Control-Allow-Methods", "POST, OPTIONS"));
        headers.push(Header::new("Access-Control-Allow-Headers", "Content-Type"));
        let length = decimal_string(body.len());
        headers.push(Header::new("Content-Length", length.as_str()));
        let r = HttpResponse { status, headers, body };
        proof {
            let expected = framed(
                status,
                match content_type {
                    Some(t) => Some(t@),
                    None => None,
                },
                body@,
            );
            assert(r@.headers =~= expected.headers);
        }
        r
    }

    /// The reply to a chat message: `json` is the JSON text of the answer.
    pub fn chat_reply(json: &str) -> (r: HttpResponse)
        ensures
            r@ == chat_reply(encode_utf8(json@)),
    {
        HttpResponse::framed(Status::Success, Some("application/json"), json.as_bytes_vec())
    }

    /// The reply to a posted body that is no chat message.
    pub fn bad_request() -> (r: HttpResponse)
        ensures
            r@ == bad_request(),
    {
        HttpResponse::framed(
            Status::BadRequest,
            Some("text/plain"),
            "Invalid JSON payload".as_bytes_vec(),
        )
    }

    /// The reply to a preflight request.
    pub fn preflight() -> (r: HttpResponse)
        ensures
            r@ == preflight(),
    {
        HttpResponse::framed(Status::Success, None, Vec::new())
    }

    /// The reply to every request that is neither of the two that the service
    /// knows.
    pub fn method_not_allowed() -> (r: HttpResponse)
        ensures
            r@ == method_not_allowed(),
    {
        HttpResponse::framed(
            Status::MethodNotAllowed,
            Some("text/plain"),
            "Method not allowed for this route".as_bytes_vec(),
        )
    }

    /// The bytes of this reply on the wire, whole: nothing is written before all
    /// of it is built.
    pub fn to_bytes(&self) -> (out: Vec<u8>)
        ensures
            out@ == wire(self@),
    {
        let mut text = String::from_str("HTTP/1.1 ");
        let code = decimal_string(self.status.code() as usize);
        text.append(code.as_str());
        text.append(" ");
        text.append(self.status.reason());
        text.append("\r\n");
        let mut i: usize = 0;
        while i < self.headers.len()
            invariant
                i <= self.headers.len(),
                text@ == status_line(self.status) + header_lines(self@.headers.take(i as int)),
            decreases self.headers.len() - i,
        {
            let h = &self.headers[i];
            text.append(h.name.as_str());
            text.append(": ");
            text.append(h.value.as_str());
            text.append("\r\n");
            proof {
                let before = self@.headers.take(i as int);
                let after = self@.headers.take(i + 1);
                assert(after.drop_last() =~= before);
                assert(after.last() == h@);
                assert(text@ =~= status_line(self.status) + header_lines(after));
            }
            i += 1;
        }
        text.append("\r\n");
        proof {
            assert(self@.headers.take(i as int) =~= self@.headers);
        }
        let mut out = text.as_str().as_bytes_vec();
        out.extend_from_slice(self.body.as_slice());
        out
    }
}

} // verus!
