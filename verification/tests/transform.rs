use rusty::message::{process_message, ChatMessage};

fn message(user: &str, text: &str) -> ChatMessage {
    ChatMessage { user: user.to_string(), message: text.to_string() }
}

#[test]
fn reply_is_prefix_and_text() {
    let reply = process_message(&message("Alice", "hi"));
    assert_eq!(reply.user, "Rusty");
    assert_eq!(reply.message, "You said: hi");
}

#[test]
fn reply_does_not_depend_on_sender() {
    let a = process_message(&message("Alice", "same words"));
    let b = process_message(&message("", "same words"));
    let c = process_message(&message("Rusty", "same words"));
    assert_eq!(a.user, "Rusty");
    assert_eq!(b.user, "Rusty");
    assert_eq!(c.user, "Rusty");
    assert_eq!(a.message, b.message);
    assert_eq!(b.message, c.message);
}

#[test]
fn reply_keeps_text_verbatim() {
    let texts = ["", " ", "<b>\"quoted\"</b>\r\n\ttab", "You said: hi", "h\u{e9}llo \u{1F600}", "\u{0}"];
    for text in texts {
        let reply = process_message(&message("u", text));
        assert_eq!(reply.message, format!("You said: {}", text));
    }
}

#[test]
fn reply_to_long_text_is_not_cut() {
    let text = "x".repeat(100_000);
    let reply = process_message(&message("u", &text));
    assert_eq!(reply.message.len(), 100_010);
    assert!(reply.message.ends_with(&text));
}

#[test]
fn message_is_left_as_it_was() {
    let m = message("Alice", "hi");
    let copy = m.clone();
    let _ = process_message(&m);
    assert_eq!(m.user, copy.user);
    assert_eq!(m.message, copy.message);
    assert_eq!(m.user, "Alice");
    assert_eq!(m.message, "hi");
}
