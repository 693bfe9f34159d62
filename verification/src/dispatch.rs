//! The line dispatcher: what a line typed by the user means.
//!
//! A line is trimmed first. An empty line means nothing. A line that starts with the
//! command prefix is a local command: `/ping [data]`, `/pong [data]` or
//! `/close [code[, reason]]`. Every other line is a payload and is sent as it stands.

use vstd::prelude::*;
use crate::message::{Frame, OutboundMessage};
use crate::text::{
    chars_of, cut, decimal_u16, join, leading, lemma_trim_is_trimmed, optional, parse_u16, scan,
    trim, trim_window, window_is, CharClass,
};

verus! {

/// The character that introduces a local command.
pub const COMMAND_PREFIX: char = '/';

/// What the dispatcher makes of a line: at most one message for the peer, and at most
/// one line of feedback for the user.
pub struct Dispatch {
    pub message: Option<Frame>,
    pub feedback: Option<Seq<char>>,
}

/// The name of the command in the trimmed line `t`, which starts with the prefix:
/// what stands between the prefix and the first white space.
pub open spec fn command_name(t: Seq<char>) -> Seq<char> {
    let body = t.skip(1);
    body.take(leading(body, CharClass::Word) as int)
}

/// The argument of the command in the trimmed line `t`: what follows the name, trimmed.
pub open spec fn command_argument(t: Seq<char>) -> Seq<char> {
    let body = t.skip(1);
    trim(body.skip(leading(body, CharClass::Word) as int))
}

/// The text of the status code in the argument of `/close`: what stands before the
/// first comma, trimmed.
pub open spec fn close_code_text(arg: Seq<char>) -> Seq<char> {
    trim(arg.take(leading(arg, CharClass::Field) as int))
}

/// The reason in the argument of `/close`: what follows the first comma, trimmed, if
/// there is a comma and anything but white space follows it.
pub open spec fn close_reason(arg: Seq<char>) -> Option<Seq<char>> {
    let comma = leading(arg, CharClass::Field);
    if comma < arg.len() {
        optional(trim(arg.skip(comma as int + 1)))
    } else {
        None
    }
}

/// What `/close` with the argument `arg` means.
pub open spec fn close_dispatch(arg: Seq<char>) -> Dispatch {
    if arg.len() == 0 {
        Dispatch { message: Some(Frame::Close(None, None)), feedback: None }
    } else {
        match decimal_u16(close_code_text(arg)) {
            Some(code) => Dispatch {
                message: Some(Frame::Close(Some(code), close_reason(arg))),
                feedback: None,
            },
            None => Dispatch {
                message: None,
                feedback: Some("Invalid close code: "@ + close_code_text(arg)),
            },
        }
    }
}

/// What the trimmed line `t`, which starts with the prefix, means.
pub open spec fn command_dispatch(t: Seq<char>) -> Dispatch {
    let name = command_name(t);
    let arg = command_argument(t);
    if name == "ping"@ {
        Dispatch { message: Some(Frame::Ping(optional(arg))), feedback: None }
    } else if name == "pong"@ {
        Dispatch { message: Some(Frame::Pong(optional(arg))), feedback: None }
    } else if name == "close"@ {
        close_dispatch(arg)
    } else {
        Dispatch { message: None, feedback: Some("Unknown command: "@ + t) }
    }
}

/// What the line `line` means.
pub open spec fn dispatch_spec(line: Seq<char>) -> Dispatch {
    let t = trim(line);
    if t.len() == 0 {
        Dispatch { message: None, feedback: None }
    } else if t[0] != COMMAND_PREFIX {
        Dispatch { message: Some(Frame::Text(t)), feedback: None }
    } else {
        command_dispatch(t)
    }
}

/// The argument `[lo, hi)` of `/ping` or `/pong` as optional data.
fn optional_cut(line: &str, lo: usize, hi: usize) -> (r: Option<String>)
    requires
        lo <= hi <= line@.len(),
    ensures
        r.deep_view() == optional(line@.subrange(lo as int, hi as int)),
{
    if lo == hi {
        None
    } else {
        Some(cut(line, lo, hi))
    }
}

/// `/close` with its argument in the window `[lo, hi)` of the line.
fn dispatch_close(line: &str, v: &Vec<char>, lo: usize, hi: usize) -> (r: (
    Option<OutboundMessage>,
    Option<String>,
))
    requires
        v@ == line@,
        lo <= hi <= v.len(),
    ensures
        r.0.deep_view() == close_dispatch(v@.subrange(lo as int, hi as int)).message,
        r.1.deep_view() == close_dispatch(v@.subrange(lo as int, hi as int)).feedback,
{
    let ghost arg = v@.subrange(lo as int, hi as int);
    if lo == hi {
        return (Some(OutboundMessage::Close(None, None)), None);
    }
    let comma: usize = scan(v, lo, hi, CharClass::Field);
    let (c0, c1) = trim_window(v, lo, comma);
    proof {
        assert(arg.take(comma - lo) =~= v@.subrange(lo as int, comma as int));
    }
    match parse_u16(v, c0, c1) {
        Some(code) => {
            let reason: Option<String> = if comma < hi {
                let (r0, r1) = trim_window(v, comma + 1, hi);
                proof {
                    assert(arg.skip(comma - lo + 1) =~= v@.subrange(comma + 1, hi as int));
                }
                optional_cut(line, r0, r1)
            } else {
                None
            };
            (Some(OutboundMessage::Close(Some(code), reason)), None)
        },
        None => {
            let text: String = cut(line, c0, c1);
            (None, Some(join("Invalid close code: ", text.as_str())))
        },
    }
}

/// Dispatches one line typed by the user.
///
/// The line is trimmed. An empty line gives nothing. A line that does not start with
/// the command prefix gives a text message that carries the trimmed line, and no
/// feedback. A command gives its control frame, or feedback that says why it gave none:
/// an unknown name, or a status code of `/close` that is no 16-bit decimal number.
pub fn dispatch(line: &str) -> (r: (Option<OutboundMessage>, Option<String>))
    ensures
        r.0.deep_view() == dispatch_spec(line@).message,
        r.1.deep_view() == dispatch_spec(line@).feedback,
{
    let v: Vec<char> = chars_of(line);
    let (a, b) = trim_window(&v, 0, v.len());
    let ghost t = trim(line@);
    proof {
        assert(v@.subrange(0, v.len() as int) =~= line@);
    }
    if a == b {
        return (None, None);
    }
    if v[a] != COMMAND_PREFIX {
        return (Some(OutboundMessage::Text(cut(line, a, b))), None);
    }
    let name_end: usize = scan(&v, a + 1, b, CharClass::Word);
    let (c, d) = trim_window(&v, name_end, b);
    proof {
        let body = t.skip(1);
        assert(body =~= v@.subrange(a + 1, b as int));
        assert(command_name(t) =~= v@.subrange(a + 1, name_end as int));
        assert(body.skip(name_end - a - 1) =~= v@.subrange(name_end as int, b as int));
        assert(command_argument(t) == v@.subrange(c as int, d as int));
    }
    if window_is(&v, a + 1, name_end, "ping") {
        (Some(OutboundMessage::Ping(optional_cut(line, c, d))), None)
    } else if window_is(&v, a + 1, name_end, "pong") {
        (Some(OutboundMessage::Pong(optional_cut(line, c, d))), None)
    } else if window_is(&v, a + 1, name_end, "close") {
        dispatch_close(line, &v, c, d)
    } else {
        let whole: String = cut(line, a, b);
        (None, Some(join("Unknown command: ", whole.as_str())))
    }
}

/// A line that is not empty once trimmed, and does not then start with the command
/// prefix, is sent as a text message that carries the trimmed line; there is no feedback.
pub proof fn law_payload_line(line: Seq<char>)
    requires
        trim(line).len() > 0,
        trim(line)[0] != COMMAND_PREFIX,
    ensures
        dispatch_spec(line).message == Some(Frame::Text(trim(line))),
        dispatch_spec(line).feedback is None,
{
}

/// A line that holds white space only gives no message and no feedback.
pub proof fn law_blank_line(line: Seq<char>)
    requires
        trim(line).len() == 0,
    ensures
        dispatch_spec(line).message is None,
        dispatch_spec(line).feedback is None,
{
}

/// A command whose name is none of `ping`, `pong` and `close` gives no message, and
/// feedback that is not empty.
pub proof fn law_unknown_command(line: Seq<char>)
    requires
        trim(line).len() > 0,
        trim(line)[0] == COMMAND_PREFIX,
        command_name(trim(line)) != "ping"@,
        command_name(trim(line)) != "pong"@,
        command_name(trim(line)) != "close"@,
    ensures
        dispatch_spec(line).message is None,
        dispatch_spec(line).feedback matches Some(text) && text.len() > 0,
{
}

/// No line gives both a message and feedback.
pub proof fn law_message_or_feedback(line: Seq<char>)
    ensures
        dispatch_spec(line).message is None || dispatch_spec(line).feedback is None,
{
}

/// Trimming a line twice gives what trimming it once gives, so a line that was trimmed
/// before it reached the dispatcher means what the raw line means.
pub proof fn law_trimmed_line(line: Seq<char>)
    ensures
        trim(trim(line)) == trim(line),
        dispatch_spec(trim(line)) == dispatch_spec(line),
{
    lemma_trim_is_trimmed(line);
}

} // verus!
