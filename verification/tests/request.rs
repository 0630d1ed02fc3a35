use rusty::request::{IncomingRequest, Route, Verb};
use rusty::text::{copy_range, find, matches_at, starts_with};

#[test]
fn posted_chat_message_is_read() {
    let text = "POST /api/chat HTTP/1.1\r\nHost: localhost\r\nContent-Type: application/json\r\n\r\n{\"user\":\"Alice\",\"message\":\"hi\"}";
    let req = IncomingRequest::from_text(text);
    assert_eq!(req.verb, Verb::Post);
    assert_eq!(req.path, b"/api/chat".to_vec());
    assert_eq!(req.raw_body, b"{\"user\":\"Alice\",\"message\":\"hi\"}".to_vec());
    assert_eq!(req.route(), Route::Chat);
}

#[test]
fn preflight_is_read() {
    let req = IncomingRequest::from_text("OPTIONS /api/chat HTTP/1.1\r\nOrigin: http://example.org\r\n\r\n");
    assert_eq!(req.verb, Verb::Options);
    assert_eq!(req.path, b"/api/chat".to_vec());
    assert_eq!(req.raw_body, Vec::<u8>::new());
    assert_eq!(req.route(), Route::Preflight);
}

#[test]
fn other_verbs_fall_through() {
    for text in ["GET /api/chat HTTP/1.1\r\n\r\n", "GET /anything", "PUT /api/chat", "DELETE /", "HEAD /api/chat HTTP/1.0\r\n\r\n"] {
        let req = IncomingRequest::from_text(text);
        assert_eq!(req.verb, Verb::Other);
        assert_eq!(req.route(), Route::Fallback);
    }
    assert_eq!(IncomingRequest::from_text("GET /anything").path, b"/anything".to_vec());
}

#[test]
fn other_paths_fall_through() {
    for text in ["POST /api HTTP/1.1\r\n\r\n{}", "POST / HTTP/1.1", "OPTIONS * HTTP/1.1", "OPTIONS /api/cha", "POST /API/CHAT", "POST /x/api/chat"] {
        let req = IncomingRequest::from_text(text);
        assert_ne!(req.verb, Verb::Other);
        assert_eq!(req.route(), Route::Fallback);
    }
}

#[test]
fn route_goes_by_the_way_the_text_begins() {
    let texts = [
        "POST /api/chat", "POST /api/chat\r\n", "POST /api/chatter HTTP/1.1", "POST /api/chat?x=1 HTTP/1.1",
        "POST /api/chat/more", "OPTIONS /api/chat", "OPTIONS /api/chats", "POST  /api/chat", " POST /api/chat",
        "post /api/chat", "POSTS /api/chat", "POST\t/api/chat", "POST\r\n/api/chat", "POST/api/chat", "POST",
        "OPTIONS", "", " ", "\r\n\r\n", "GET /api/chat", "POST /api/cha", "OPTIONS /api/cha\r\nt", "POST /api/chat\u{e9}",
    ];
    for text in texts {
        let expected = if text.starts_with("POST /api/chat") {
            Route::Chat
        } else if text.starts_with("OPTIONS /api/chat") {
            Route::Preflight
        } else {
            Route::Fallback
        };
        assert_eq!(IncomingRequest::from_text(text).route(), expected);
    }
}

#[test]
fn verb_and_path_are_the_first_two_words() {
    let req = IncomingRequest::from_text("POST /api/chat?room=1 HTTP/1.1\r\n\r\n");
    assert_eq!(req.verb, Verb::Post);
    assert_eq!(req.path, b"/api/chat?room=1".to_vec());
    let req = IncomingRequest::from_text("POST\r\n/api/chat");
    assert_eq!(req.verb, Verb::Post);
    assert_eq!(req.path, Vec::<u8>::new());
    let req = IncomingRequest::from_text("POST  /api/chat");
    assert_eq!(req.verb, Verb::Post);
    assert_eq!(req.path, Vec::<u8>::new());
    let req = IncomingRequest::from_text("OPTIONS /a\nb");
    assert_eq!(req.verb, Verb::Options);
    assert_eq!(req.path, b"/a".to_vec());
    let req = IncomingRequest::from_text("");
    assert_eq!(req.verb, Verb::Other);
    assert_eq!(req.path, Vec::<u8>::new());
    assert_eq!(req.raw_body, Vec::<u8>::new());
}

#[test]
fn body_without_empty_line_is_the_whole_text() {
    for text in ["{\"user\":\"a\",\"message\":\"b\"}", "POST /api/chat HTTP/1.1\r\nHost: x\r\n{}", "POST /api/chat\n\n{}", "POST /api/chat\r\n\r", ""] {
        assert_eq!(IncomingRequest::from_text(text).raw_body, text.as_bytes().to_vec());
    }
}

#[test]
fn body_begins_behind_the_first_empty_line() {
    let req = IncomingRequest::from_text("POST /api/chat\r\n\r\nfirst\r\n\r\nsecond");
    assert_eq!(req.raw_body, b"first\r\n\r\nsecond".to_vec());
    let req = IncomingRequest::from_text("POST /api/chat\r\n\r\n");
    assert_eq!(req.raw_body, Vec::<u8>::new());
    let req = IncomingRequest::from_text("\r\n\r\n\r\n");
    assert_eq!(req.raw_body, b"\r\n".to_vec());
    let req = IncomingRequest::from_text("\r\n\r\r\n\r\nx");
    assert_eq!(req.raw_body, b"x".to_vec());
}

#[test]
fn well_formed_bytes_are_read_as_they_stand() {
    let raw = "POST /api/chat\r\n\r\n{\"user\":\"\u{e9}\",\"message\":\"\u{1F600}\"}".as_bytes();
    let req = IncomingRequest::parse(raw);
    assert_eq!(req.verb, Verb::Post);
    assert_eq!(req.raw_body, raw[18..].to_vec());
}

#[test]
fn malformed_bytes_are_replaced() {
    let req = IncomingRequest::parse(b"POST /api/chat\r\n\r\n\xff{\"a\":\"\xc3\"}");
    assert_eq!(req.route(), Route::Chat);
    assert_eq!(req.raw_body, "\u{fffd}{\"a\":\"\u{fffd}\"}".as_bytes().to_vec());
    let req = IncomingRequest::parse(b"\xffPOST /api/chat");
    assert_eq!(req.route(), Route::Fallback);
    assert_eq!(req.raw_body, "\u{fffd}POST /api/chat".as_bytes().to_vec());
    let req = IncomingRequest::parse(b"POST /api/chat\x80 HTTP/1.1");
    assert_eq!(req.route(), Route::Chat);
    assert_eq!(req.path, "/api/chat\u{fffd}".as_bytes().to_vec());
}

#[test]
fn search_finds_the_first_occurrence() {
    assert_eq!(find(b"abcabc", b"bc"), Some(1));
    assert_eq!(find(b"abcabc", b"abcabc"), Some(0));
    assert_eq!(find(b"abcabc", b"cab"), Some(2));
    assert_eq!(find(b"abcabc", b"abcabcd"), None);
    assert_eq!(find(b"abcabc", b"ca "), None);
    assert_eq!(find(b"aaa", b""), Some(0));
    assert_eq!(find(b"", b""), Some(0));
    assert_eq!(find(b"", b"a"), None);
    assert_eq!(find(b"\r\n\r\r\n\r\n", b"\r\n\r\n"), Some(3));
}

#[test]
fn prefix_and_match_at_an_index() {
    assert!(starts_with(b"POST /api/chat", b"POST"));
    assert!(starts_with(b"POST", b"POST"));
    assert!(starts_with(b"POST", b""));
    assert!(!starts_with(b"POS", b"POST"));
    assert!(!starts_with(b"xPOST", b"POST"));
    assert!(matches_at(b"xPOST", b"POST", 1));
    assert!(!matches_at(b"xPOST", b"POST", 2));
    assert!(matches_at(b"abc", b"", 3));
    assert!(!matches_at(b"abc", b"", 4));
    assert!(!matches_at(b"abc", b"c", usize::MAX));
    assert_eq!(copy_range(b"abcdef", 2, 4), b"cd".to_vec());
    assert_eq!(copy_range(b"abcdef", 6, 6), Vec::<u8>::new());
    assert_eq!(copy_range(b"abcdef", 0, 6), b"abcdef".to_vec());
}

#[test]
fn path_and_body_are_text() {
    let raws: [&[u8]; 6] = [
        b"POST /api/chat\r\n\r\n\xff\xfe\xfd",
        b"POST /\xe2\x82 HTTP/1.1\r\n\r\n\xe2\x82",
        b"POST \x80\x80\r\n\r\n",
        b"\xc3 \xc3\n\r\n\r\n\xc3",
        "POST /caf\u{e9} HTTP/1.1\r\n\r\n\u{1F600}".as_bytes(),
        b"",
    ];
    for raw in raws {
        let req = IncomingRequest::parse(raw);
        assert!(std::str::from_utf8(&req.path).is_ok());
        assert!(std::str::from_utf8(&req.raw_body).is_ok());
    }
    let req = IncomingRequest::parse("POST /caf\u{e9} HTTP/1.1\r\n\r\n\u{1F600}".as_bytes());
    assert_eq!(req.path, "/caf\u{e9}".as_bytes().to_vec());
    assert_eq!(req.raw_body, "\u{1F600}".as_bytes().to_vec());
}
