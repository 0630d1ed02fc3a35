use rusty::response::{decimal_string, Header, HttpResponse, Status};

const CORS: &str = "Access-Control-Allow-Origin: *\r\nAccess-Control-Allow-Methods: POST, OPTIONS\r\nAccess-Control-Allow-Headers: Content-Type\r\n";

fn declared_and_body(wire: &[u8]) -> (usize, Vec<u8>) {
    let split = wire.windows(4).position(|w| w == b"\r\n\r\n").unwrap();
    let head = std::str::from_utf8(&wire[..split]).unwrap();
    let lengths: Vec<&str> = head.split("\r\n").filter_map(|line| line.strip_prefix("Content-Length: ")).collect();
    assert_eq!(lengths.len(), 1);
    (lengths[0].parse().unwrap(), wire[split + 4..].to_vec())
}

fn header<'a>(r: &'a HttpResponse, name: &str) -> Option<&'a str> {
    r.headers.iter().find(|h| h.name == name).map(|h| h.value.as_str())
}

#[test]
fn preflight_on_the_wire() {
    let r = HttpResponse::preflight();
    assert_eq!(r.status, Status::Success);
    assert_eq!(r.status.code(), 200);
    assert!(r.body.is_empty());
    assert_eq!(r.headers.len(), 4);
    assert_eq!(header(&r, "Content-Type"), None);
    assert_eq!(r.to_bytes(), format!("HTTP/1.1 200 OK\r\n{}Content-Length: 0\r\n\r\n", CORS).into_bytes());
}

#[test]
fn method_not_allowed_on_the_wire() {
    let r = HttpResponse::method_not_allowed();
    assert_eq!(r.status.code(), 405);
    assert_eq!(r.body, b"Method not allowed for this route".to_vec());
    assert_eq!(
        r.to_bytes(),
        format!("HTTP/1.1 405 Method Not Allowed\r\nContent-Type: text/plain\r\n{}Content-Length: 33\r\n\r\nMethod not allowed for this route", CORS).into_bytes()
    );
}

#[test]
fn bad_request_on_the_wire() {
    let r = HttpResponse::bad_request();
    assert_eq!(r.status.code(), 400);
    assert_eq!(r.body, b"Invalid JSON payload".to_vec());
    assert_eq!(
        r.to_bytes(),
        format!("HTTP/1.1 400 Bad Request\r\nContent-Type: text/plain\r\n{}Content-Length: 20\r\n\r\nInvalid JSON payload", CORS).into_bytes()
    );
}

#[test]
fn chat_reply_on_the_wire() {
    let json = "{\"user\":\"Rusty\",\"message\":\"You said: hi\"}";
    let r = HttpResponse::chat_reply(json);
    assert_eq!(r.status.code(), 200);
    assert_eq!(r.body, json.as_bytes().to_vec());
    assert_eq!(
        r.to_bytes(),
        format!("HTTP/1.1 200 OK\r\nContent-Type: application/json\r\n{}Content-Length: 41\r\n\r\n{}", CORS, json).into_bytes()
    );
}

#[test]
fn headers_come_in_their_order() {
    let r = HttpResponse::chat_reply("{}");
    let names: Vec<&str> = r.headers.iter().map(|h| h.name.as_str()).collect();
    assert_eq!(
        names,
        vec!["Content-Type", "Access-Control-Allow-Origin", "Access-Control-Allow-Methods", "Access-Control-Allow-Headers", "Content-Length"]
    );
    assert_eq!(header(&r, "Content-Type"), Some("application/json"));
    assert_eq!(header(&r, "Access-Control-Allow-Origin"), Some("*"));
    assert_eq!(header(&r, "Access-Control-Allow-Methods"), Some("POST, OPTIONS"));
    assert_eq!(header(&r, "Access-Control-Allow-Headers"), Some("Content-Type"));
    assert_eq!(header(&r, "Content-Length"), Some("2"));
}

#[test]
fn declared_length_is_the_length_of_the_body() {
    let long = "x".repeat(5000);
    let bodies = ["", "{}", "{\"user\":\"Rusty\",\"message\":\"You said: hi\"}", "\r\n\r\n", "a\r\n\r\nb", long.as_str()];
    let mut replies: Vec<HttpResponse> = bodies.iter().map(|b| HttpResponse::chat_reply(b)).collect();
    replies.push(HttpResponse::preflight());
    replies.push(HttpResponse::bad_request());
    replies.push(HttpResponse::method_not_allowed());
    for r in replies {
        let wire = r.to_bytes();
        let (declared, body) = declared_and_body(&wire);
        assert_eq!(declared, r.body.len());
        assert_eq!(body, r.body);
        assert_eq!(&wire[wire.len() - declared..], r.body.as_slice());
    }
}

#[test]
fn declared_length_counts_bytes() {
    let json = "{\"user\":\"Rusty\",\"message\":\"You said: h\u{e9}llo \u{1F600}\"}";
    let r = HttpResponse::chat_reply(json);
    assert_eq!(json.chars().count(), 46);
    assert_eq!(json.len(), 50);
    assert_eq!(header(&r, "Content-Length"), Some("50"));
    let (declared, body) = declared_and_body(&r.to_bytes());
    assert_eq!(declared, 50);
    assert_eq!(body, json.as_bytes().to_vec());
}

#[test]
fn every_reply_allows_cross_origin() {
    for r in [HttpResponse::preflight(), HttpResponse::bad_request(), HttpResponse::method_not_allowed(), HttpResponse::chat_reply("{}")] {
        let wire = String::from_utf8(r.to_bytes()).unwrap();
        assert!(wire.contains(CORS));
    }
}

#[test]
fn numbers_in_decimal() {
    assert_eq!(decimal_string(0), "0");
    assert_eq!(decimal_string(7), "7");
    assert_eq!(decimal_string(9), "9");
    assert_eq!(decimal_string(10), "10");
    assert_eq!(decimal_string(41), "41");
    assert_eq!(decimal_string(405), "405");
    assert_eq!(decimal_string(1024), "1024");
    assert_eq!(decimal_string(1234567890), "1234567890");
    assert_eq!(decimal_string(usize::MAX), usize::MAX.to_string());
}

#[test]
fn status_codes_and_reasons() {
    assert_eq!((Status::Success.code(), Status::Success.reason()), (200, "OK"));
    assert_eq!((Status::BadRequest.code(), Status::BadRequest.reason()), (400, "Bad Request"));
    assert_eq!((Status::MethodNotAllowed.code(), Status::MethodNotAllowed.reason()), (405, "Method Not Allowed"));
}

#[test]
fn reply_built_by_hand_is_written_as_it_is() {
    let r = HttpResponse { status: Status::BadRequest, headers: vec![Header::new("X-One", "1"), Header::new("X-Two", "")], body: b"body".to_vec() };
    assert_eq!(r.to_bytes(), b"HTTP/1.1 400 Bad Request\r\nX-One: 1\r\nX-Two: \r\n\r\nbody".to_vec());
    let r = HttpResponse { status: Status::Success, headers: Vec::new(), body: Vec::new() };
    assert_eq!(r.to_bytes(), b"HTTP/1.1 200 OK\r\n\r\n".to_vec());
}

#[test]
fn body_is_all_that_follows_the_first_empty_line() {
    let bodies = ["", "{}", "\r\n\r\n", "a\r\n\r\nb", "{\"user\":\"Rusty\",\"message\":\"You said: \\r\\n\\r\\n\"}"];
    let mut replies: Vec<HttpResponse> = bodies.iter().map(|b| HttpResponse::chat_reply(b)).collect();
    replies.push(HttpResponse::preflight());
    replies.push(HttpResponse::bad_request());
    replies.push(HttpResponse::method_not_allowed());
    for r in replies {
        let wire = String::from_utf8(r.to_bytes()).unwrap();
        let read = rusty::request::IncomingRequest::from_text(&wire);
        assert_eq!(read.raw_body, r.body);
        assert_eq!(rusty::text::find(wire.as_bytes(), b"\r\n\r\n"), Some(wire.len() - r.body.len() - 4));
    }
}
