use wsrelay::output::{OutputLine, OutputSink, Tone};

fn line(tone: Tone, text: &str) -> OutputLine {
    OutputLine { tone, text: text.to_string() }
}

#[test]
fn new_sink_is_empty() {
    let mut sink = OutputSink::new();
    assert_eq!(sink.len(), 0);
    assert_eq!(sink.take(), vec![]);
}

#[test]
fn lines_leave_whole_and_in_order() {
    let mut sink = OutputSink::new();
    sink.write(Tone::Inbound, "first\nstill first".to_string());
    sink.write(Tone::Feedback, "second".to_string());
    sink.write(Tone::Inbound, "".to_string());
    assert_eq!(sink.len(), 3);
    assert_eq!(
        sink.take(),
        vec![
            line(Tone::Inbound, "first\nstill first"),
            line(Tone::Feedback, "second"),
            line(Tone::Inbound, ""),
        ]
    );
}

#[test]
fn take_leaves_the_sink_empty() {
    let mut sink = OutputSink::new();
    sink.write(Tone::Status, "a".to_string());
    assert_eq!(sink.take().len(), 1);
    assert_eq!(sink.len(), 0);
    assert_eq!(sink.take(), vec![]);
    sink.write(Tone::Error, "b".to_string());
    assert_eq!(sink.take(), vec![line(Tone::Error, "b")]);
}
