use rusty::shell::{Outcome, VMResponse};

#[test]
fn output_of_a_command_that_succeeded() {
    let r = VMResponse::report(Outcome::Finished { success: true, stdout: b"hello\n".to_vec(), stderr: b"warning\n".to_vec() });
    assert_eq!(r.output, "hello\n");
    assert_eq!(r.error, None);
}

#[test]
fn error_of_a_command_that_failed() {
    let r = VMResponse::report(Outcome::Finished { success: false, stdout: b"partial".to_vec(), stderr: b"sh: 1: nope: not found\n".to_vec() });
    assert_eq!(r.output, "");
    assert_eq!(r.error, Some("sh: 1: nope: not found\n".to_string()));
    let r = VMResponse::report(Outcome::Finished { success: false, stdout: Vec::new(), stderr: Vec::new() });
    assert_eq!(r.output, "");
    assert_eq!(r.error, Some(String::new()));
}

#[test]
fn reason_of_a_command_that_did_not_start() {
    let r = VMResponse::report(Outcome::NotStarted("No such file or directory (os error 2)".to_string()));
    assert_eq!(r.output, "");
    assert_eq!(r.error, Some("No such file or directory (os error 2)".to_string()));
}

#[test]
fn malformed_output_is_replaced() {
    let r = VMResponse::report(Outcome::Finished { success: true, stdout: b"a\xffb\xc3".to_vec(), stderr: Vec::new() });
    assert_eq!(r.output, "a\u{fffd}b\u{fffd}");
    let r = VMResponse::report(Outcome::Finished { success: false, stdout: Vec::new(), stderr: b"\xf0\x9f\x98".to_vec() });
    assert_eq!(r.error, Some("\u{fffd}".to_string()));
    let r = VMResponse::report(Outcome::Finished { success: true, stdout: "h\u{e9}".as_bytes().to_vec(), stderr: Vec::new() });
    assert_eq!(r.output, "h\u{e9}");
}

#[test]
fn reports_built_directly() {
    let r = VMResponse::succeeded("out".to_string());
    assert_eq!((r.output.as_str(), r.error), ("out", None));
    let r = VMResponse::failed("err".to_string());
    assert_eq!((r.output.as_str(), r.error), ("", Some("err".to_string())));
}
