use wsrelay::dispatch::dispatch;
use wsrelay::message::OutboundMessage;

fn text(s: &str) -> Option<String> {
    Some(s.to_string())
}

#[test]
fn payload_line_is_sent_as_text() {
    assert_eq!(dispatch("hello"), (Some(OutboundMessage::Text("hello".to_string())), None));
}

#[test]
fn payload_line_is_trimmed() {
    assert_eq!(
        dispatch("  hello world \t"),
        (Some(OutboundMessage::Text("hello world".to_string())), None)
    );
}

#[test]
fn payload_line_is_trimmed_of_unicode_white_space() {
    assert_eq!(
        dispatch("\u{2003}gr\u{fc}\u{df}e\u{a0}\n"),
        (Some(OutboundMessage::Text("gr\u{fc}\u{df}e".to_string())), None)
    );
}

#[test]
fn inner_white_space_is_kept() {
    assert_eq!(dispatch("a   b"), (Some(OutboundMessage::Text("a   b".to_string())), None));
}

#[test]
fn empty_line_gives_nothing() {
    assert_eq!(dispatch(""), (None, None));
}

#[test]
fn blank_line_gives_nothing() {
    assert_eq!(dispatch("  \t  "), (None, None));
}

#[test]
fn ping_without_data() {
    assert_eq!(dispatch("/ping"), (Some(OutboundMessage::Ping(None)), None));
}

#[test]
fn ping_with_data() {
    assert_eq!(dispatch("/ping hello"), (Some(OutboundMessage::Ping(text("hello"))), None));
}

#[test]
fn ping_data_keeps_inner_white_space() {
    assert_eq!(dispatch(" /ping   a  b  "), (Some(OutboundMessage::Ping(text("a  b"))), None));
}

#[test]
fn pong_without_data() {
    assert_eq!(dispatch("/pong"), (Some(OutboundMessage::Pong(None)), None));
}

#[test]
fn pong_with_data() {
    assert_eq!(dispatch("/pong\tdata"), (Some(OutboundMessage::Pong(text("data"))), None));
}

#[test]
fn close_without_argument() {
    assert_eq!(dispatch("/close"), (Some(OutboundMessage::Close(None, None)), None));
}

#[test]
fn close_with_code() {
    assert_eq!(dispatch("/close 1000"), (Some(OutboundMessage::Close(Some(1000), None)), None));
}

#[test]
fn close_with_code_and_reason() {
    assert_eq!(
        dispatch("/close 1000, bye"),
        (Some(OutboundMessage::Close(Some(1000), text("bye"))), None)
    );
}

#[test]
fn close_reason_may_hold_commas_and_spaces() {
    assert_eq!(
        dispatch("/close 4000 ,  so long, and thanks  "),
        (Some(OutboundMessage::Close(Some(4000), text("so long, and thanks"))), None)
    );
}

#[test]
fn close_with_empty_reason_has_no_reason() {
    assert_eq!(dispatch("/close 1000,  "), (Some(OutboundMessage::Close(Some(1000), None)), None));
}

#[test]
fn close_code_limits() {
    assert_eq!(dispatch("/close 0"), (Some(OutboundMessage::Close(Some(0), None)), None));
    assert_eq!(dispatch("/close 65535"), (Some(OutboundMessage::Close(Some(65535), None)), None));
    assert_eq!(dispatch("/close 65536"), (None, text("Invalid close code: 65536")));
    assert_eq!(
        dispatch("/close 99999999999999999999999"),
        (None, text("Invalid close code: 99999999999999999999999"))
    );
}

#[test]
fn close_code_accepts_leading_zeros() {
    assert_eq!(dispatch("/close 0001000"), (Some(OutboundMessage::Close(Some(1000), None)), None));
}

#[test]
fn close_code_must_be_digits() {
    assert_eq!(dispatch("/close abc"), (None, text("Invalid close code: abc")));
    assert_eq!(dispatch("/close +5"), (None, text("Invalid close code: +5")));
    assert_eq!(dispatch("/close -1"), (None, text("Invalid close code: -1")));
    assert_eq!(dispatch("/close 1000 bye"), (None, text("Invalid close code: 1000 bye")));
    assert_eq!(dispatch("/close , bye"), (None, text("Invalid close code: ")));
    assert_eq!(dispatch("/close \u{663}"), (None, text("Invalid close code: \u{663}")));
}

#[test]
fn unknown_command_gives_feedback_only() {
    let (message, feedback) = dispatch("/frobnicate");
    assert_eq!(message, None);
    assert_eq!(feedback, text("Unknown command: /frobnicate"));
    assert!(!feedback.unwrap().is_empty());
}

#[test]
fn unknown_command_with_argument() {
    assert_eq!(dispatch("  /nope 1 2 "), (None, text("Unknown command: /nope 1 2")));
}

#[test]
fn command_names_are_whole_words() {
    assert_eq!(dispatch("/pinghello"), (None, text("Unknown command: /pinghello")));
    assert_eq!(dispatch("/"), (None, text("Unknown command: /")));
    assert_eq!(dispatch("/ ping"), (None, text("Unknown command: / ping")));
}

#[test]
fn command_names_are_case_sensitive() {
    assert_eq!(dispatch("/Ping"), (None, text("Unknown command: /Ping")));
}

#[test]
fn prefix_inside_a_line_is_payload() {
    assert_eq!(dispatch("a /ping"), (Some(OutboundMessage::Text("a /ping".to_string())), None));
}

#[test]
fn dispatch_of_a_trimmed_line_is_the_same() {
    for line in ["  hello ", " /ping  x ", "\t/close 1000, bye\n", "   ", " /what "] {
        assert_eq!(dispatch(line.trim()), dispatch(line));
    }
}

#[test]
fn no_line_gives_message_and_feedback() {
    for line in ["hello", "/ping", "/close x", "/nope", "", "/close 1, a"] {
        let (message, feedback) = dispatch(line);
        assert!(message.is_none() || feedback.is_none());
    }
}
