//! What holds of every session, whatever happens to it.

use vstd::prelude::*;
use crate::dispatch::dispatch_spec;
use crate::message::Frame;
use crate::output::{LineView, Tone};
use crate::session::{
    idle, lemma_step_wf, relay, run_spec, send_now, shutdown_actions, step_spec,
    ActionView, EventView, SessionView, Status,
};
use crate::text::trim;

verus! {

/// Whether `e` is one of the events by which an activity signals the end of the
/// session: the input loop, by the end of the input, an interrupt or a failure of the
/// terminal; the inbound relay, by the peer closing or a failed read; the outbound
/// relay, by a failed write.
pub open spec fn is_end_signal(e: EventView) -> bool {
    ||| e is EndOfInput
    ||| e is Interrupted
    ||| e is InputFailed
    ||| e is PeerClosed
    ||| e is ReceiveFailed
    ||| e is SendFailed
}

/// The messages that `actions` send, in order.
pub open spec fn sends(actions: Seq<ActionView>) -> Seq<Frame>
    decreases actions.len(),
{
    if actions.len() == 0 {
        Seq::empty()
    } else {
        match actions.last() {
            ActionView::Send(m) => sends(actions.drop_last()).push(m),
            _ => sends(actions.drop_last()),
        }
    }
}

/// The message that the user entered by `e`, if `e` is a line with a message.
pub open spec fn entered_by(e: EventView) -> Seq<Frame> {
    match e {
        EventView::Line(raw) => match dispatch_spec(raw).message {
            Some(m) => seq![m],
            None => Seq::empty(),
        },
        _ => Seq::empty(),
    }
}

/// The messages that the user entered by `events`, in order.
pub open spec fn entered(events: Seq<EventView>) -> Seq<Frame>
    decreases events.len(),
{
    if events.len() == 0 {
        Seq::empty()
    } else {
        entered_by(events[0]) + entered(events.drop_first())
    }
}

/// Whether the input loop kept pace while `events` happened to `s`: every line came
/// when the session accepted input.
pub open spec fn paced(s: SessionView, events: Seq<EventView>) -> bool
    decreases events.len(),
{
    events.len() == 0 || {
        &&& events[0] is Line ==> s.accepts_input()
        &&& paced(step_spec(s, events[0]).next, events.drop_first())
    }
}

/// The texts of the lines in `output` that are messages from the peer, in order.
pub open spec fn inbound(output: Seq<LineView>) -> Seq<Seq<char>>
    decreases output.len(),
{
    if output.len() == 0 {
        Seq::empty()
    } else if output.last().tone == Tone::Inbound {
        inbound(output.drop_last()).push(output.last().text)
    } else {
        inbound(output.drop_last())
    }
}

/// The message that came from the peer by `e`, if `e` is one.
pub open spec fn received_by(e: EventView) -> Seq<Seq<char>> {
    match e {
        EventView::Received(text) => seq![text],
        _ => Seq::empty(),
    }
}

/// The messages that came from the peer by `events`, in order.
pub open spec fn received(events: Seq<EventView>) -> Seq<Seq<char>>
    decreases events.len(),
{
    if events.len() == 0 {
        Seq::empty()
    } else {
        received_by(events[0]) + received(events.drop_first())
    }
}

/// As soon as one activity signals the end, the running session ends, in that one
/// step and whatever the other activities wait for: the channel is closed and empty,
/// no write is under way, and the step asks for the connection to be closed and for
/// the input to stop, and for nothing else.
pub proof fn law_end_signal_ends_session(s: SessionView, e: EventView)
    requires
        s.wf(),
        s.status is Running,
        is_end_signal(e),
    ensures
        step_spec(s, e).next.status is Closed,
        step_spec(s, e).next.channel.closed,
        step_spec(s, e).next.channel.queue.len() == 0,
        !step_spec(s, e).next.writing,
        step_spec(s, e).actions == shutdown_actions(),
{
}

/// The first end signal among `events` ends a running session, however many events
/// follow and whether or not the peer ever sends anything.
pub proof fn law_session_ends(s: SessionView, events: Seq<EventView>, at: int)
    requires
        s.wf(),
        s.status is Running,
        0 <= at < events.len(),
        is_end_signal(events[at]),
    ensures
        run_spec(s, events).next.status is Closed,
    decreases events.len(),
{
    let first = step_spec(s, events[0]);
    lemma_step_wf(s, events[0]);
    if first.next.status is Closed {
        law_closed_stays_closed(first.next, events.drop_first());
    } else {
        assert(at > 0);
        assert(first.next.status is Running);
        assert(events.drop_first()[at - 1] == events[at]);
        law_session_ends(first.next, events.drop_first(), at - 1);
    }
}

/// A session that has ended ignores every event: nothing changes and nothing is
/// asked for.
pub proof fn law_closed_ignores(s: SessionView, e: EventView)
    requires
        s.status is Closed,
    ensures
        step_spec(s, e) == idle(s),
{
}

/// A session that has ended stays as it is, whatever happens.
pub proof fn law_closed_stays_closed(s: SessionView, events: Seq<EventView>)
    requires
        s.status is Closed,
    ensures
        run_spec(s, events) == idle(s),
    decreases events.len(),
{
    if events.len() > 0 {
        law_closed_stays_closed(s, events.drop_first());
        assert(Seq::<ActionView>::empty() + Seq::<ActionView>::empty() =~= Seq::<
            ActionView,
        >::empty());
    }
}

/// A line that gives no message leaves a running session running: nothing is sent,
/// the channel is as before, and the sink has gained the feedback, if there is any.
pub proof fn law_line_without_message(s: SessionView, raw: Seq<char>)
    requires
        s.status is Running,
        dispatch_spec(raw).message is None,
    ensures
        step_spec(s, EventView::Line(raw)).next.status is Running,
        step_spec(s, EventView::Line(raw)).next.channel == s.channel,
        step_spec(s, EventView::Line(raw)).next.writing == s.writing,
        sends(step_spec(s, EventView::Line(raw)).actions) == Seq::<Frame>::empty(),
        step_spec(s, EventView::Line(raw)).next.output == (match dispatch_spec(raw).feedback {
            Some(text) => s.output.push(LineView { tone: Tone::Feedback, text }),
            None => s.output,
        }),
{
    let actions = step_spec(s, EventView::Line(raw)).actions;
    assert(actions.len() == 1);
    assert(actions.drop_last() =~= Seq::<ActionView>::empty());
    assert(sends(actions.drop_last()) == Seq::<Frame>::empty());
}

/// What `sends` makes of one more action.
pub proof fn lemma_sends_push(actions: Seq<ActionView>, a: ActionView)
    ensures
        sends(actions.push(a)) == (match a {
            ActionView::Send(m) => sends(actions).push(m),
            _ => sends(actions),
        }),
{
    assert(actions.push(a).drop_last() =~= actions);
    assert(actions.push(a).last() == a);
}

/// `sends` goes through concatenation.
pub proof fn lemma_sends_concat(a: Seq<ActionView>, b: Seq<ActionView>)
    ensures
        sends(a + b) == sends(a) + sends(b),
    decreases b.len(),
{
    if b.len() == 0 {
        assert(a + b =~= a);
        assert(sends(a) + sends(b) =~= sends(a));
    } else {
        lemma_sends_concat(a, b.drop_last());
        assert((a + b).drop_last() =~= a + b.drop_last());
        assert((a + b).last() == b.last());
        match b.last() {
            ActionView::Send(m) => {
                assert(sends(a) + sends(b.drop_last()).push(m) =~= (sends(a) + sends(
                    b.drop_last(),
                )).push(m));
            },
            _ => {},
        }
    }
}

/// Closing the connection and stopping the input send nothing.
pub proof fn lemma_sends_shutdown()
    ensures
        sends(shutdown_actions()) == Seq::<Frame>::empty(),
{
    let none = Seq::<ActionView>::empty();
    assert(shutdown_actions() =~= none.push(ActionView::CloseConnection).push(
        ActionView::StopInput,
    ));
    lemma_sends_push(none, ActionView::CloseConnection);
    lemma_sends_push(none.push(ActionView::CloseConnection), ActionView::StopInput);
}

/// What a step that sends `m` now sends, and that a close frame ends the session.
pub proof fn lemma_send_now(s: SessionView, m: Frame)
    ensures
        sends(send_now(s, m).actions) == seq![m],
        m is Close ==> send_now(s, m).next.status is Closed,
        !(m is Close) ==> send_now(s, m).next.channel == s.channel && send_now(s, m).next.status
            == s.status,
{
    let none = Seq::<ActionView>::empty();
    assert(seq![ActionView::Send(m)] =~= none.push(ActionView::Send(m)));
    lemma_sends_push(none, ActionView::Send(m));
    assert(sends(seq![ActionView::Send(m)]) =~= seq![m]);
    if m is Close {
        lemma_sends_concat(seq![ActionView::Send(m)], shutdown_actions());
        lemma_sends_shutdown();
        assert(seq![m] + Seq::<Frame>::empty() =~= seq![m]);
    }
}

/// One step keeps the order: what it sends starts the messages that were due, those
/// that waited followed by the one just entered; and unless the session has ended,
/// what it sends and what then waits are exactly the messages that were due.
pub proof fn lemma_step_order(s: SessionView, e: EventView)
    requires
        s.wf(),
        e is Line ==> s.accepts_input(),
    ensures
        sends(step_spec(s, e).actions).is_prefix_of(s.channel.queue + entered_by(e)),
        !(step_spec(s, e).next.status is Closed) ==> sends(step_spec(s, e).actions) + step_spec(
            s,
            e,
        ).next.channel.queue == s.channel.queue + entered_by(e),
{
    let st = step_spec(s, e);
    let due = s.channel.queue + entered_by(e);
    let none = Seq::<ActionView>::empty();
    let nothing = Seq::<Frame>::empty();
    assert(nothing.is_prefix_of(due));
    assert(nothing + s.channel.queue =~= s.channel.queue);
    assert(s.channel.queue + nothing =~= s.channel.queue);
    match s.status {
        Status::Closed(_) => {},
        Status::Connecting => {},
        Status::Running => {
            match e {
                EventView::Line(raw) => {
                    let d = dispatch_spec(raw);
                    let told = match d.feedback {
                        Some(text) => s.say(Tone::Feedback, text),
                        None => s,
                    };
                    let remember = seq![ActionView::Remember(trim(raw))];
                    assert(remember =~= none.push(ActionView::Remember(trim(raw))));
                    lemma_sends_push(none, ActionView::Remember(trim(raw)));
                    assert(sends(remember) == nothing);
                    match d.message {
                        Some(m) => {
                            let r = relay(told, m);
                            lemma_sends_concat(remember, r.actions);
                            assert(nothing + sends(r.actions) =~= sends(r.actions));
                            if !told.writing {
                                lemma_send_now(told, m);
                                assert(s.channel.queue =~= nothing);
                                assert(due =~= seq![m]);
                                assert(seq![m] + nothing =~= seq![m]);
                            } else {
                                assert(told.channel.has_room());
                                assert(sends(r.actions) == nothing);
                                assert(nothing + s.channel.queue.push(m) =~= s.channel.queue
                                    + seq![m]);
                            }
                        },
                        None => {},
                    }
                },
                EventView::Sent => {
                    if s.writing && s.channel.queue.len() > 0 {
                        let head = s.channel.queue[0];
                        let after = SessionView { channel: s.channel.advance(), ..s };
                        lemma_send_now(after, head);
                        assert(seq![head] + s.channel.queue.drop_first() =~= s.channel.queue);
                        assert(seq![head].is_prefix_of(due));
                    }
                },
                EventView::EndOfInput => { lemma_sends_shutdown(); },
                EventView::Interrupted => { lemma_sends_shutdown(); },
                EventView::InputFailed(_) => { lemma_sends_shutdown(); },
                EventView::PeerClosed => { lemma_sends_shutdown(); },
                EventView::ReceiveFailed(_) => { lemma_sends_shutdown(); },
                EventView::SendFailed(_) => { lemma_sends_shutdown(); },
                _ => {},
            }
        },
    }
}

/// Messages reach the connection in the order in which the user entered them. Where
/// the input loop kept pace, what was sent starts the messages that were due; and
/// unless the session has ended, none was lost or sent twice: what was sent and what
/// still waits are exactly the messages that were due.
pub proof fn law_outbound_order(s: SessionView, events: Seq<EventView>)
    requires
        s.wf(),
        paced(s, events),
    ensures
        sends(run_spec(s, events).actions).is_prefix_of(s.channel.queue + entered(events)),
        !(run_spec(s, events).next.status is Closed) ==> sends(run_spec(s, events).actions)
            + run_spec(s, events).next.channel.queue == s.channel.queue + entered(events),
    decreases events.len(),
{
    let due = s.channel.queue + entered(events);
    if events.len() == 0 {
        assert(sends(Seq::<ActionView>::empty()) + s.channel.queue =~= due);
    } else {
        let e = events[0];
        let tail = events.drop_first();
        let first = step_spec(s, e);
        let rest = run_spec(first.next, tail);
        lemma_step_wf(s, e);
        lemma_step_order(s, e);
        lemma_sends_concat(first.actions, rest.actions);
        assert(due =~= (s.channel.queue + entered_by(e)) + entered(tail));
        if first.next.status is Closed {
            law_closed_stays_closed(first.next, tail);
            assert(sends(first.actions) + Seq::<Frame>::empty() =~= sends(first.actions));
        } else {
            law_outbound_order(first.next, tail);
            let sent = sends(first.actions);
            assert(sent + (first.next.channel.queue + entered(tail)) =~= due);
            assert((sent + sends(rest.actions)).is_prefix_of(due));
            if !(rest.next.status is Closed) {
                assert((sent + sends(rest.actions)) + rest.next.channel.queue =~= sent + (sends(
                    rest.actions,
                ) + rest.next.channel.queue));
            }
        }
    }
}

/// A close frame is the last message that ever leaves: in everything that a session
/// sends, only the last message can be a close frame.
pub proof fn law_close_is_last(s: SessionView, events: Seq<EventView>, i: int)
    requires
        s.wf(),
        0 <= i < sends(run_spec(s, events).actions).len(),
        sends(run_spec(s, events).actions)[i] is Close,
    ensures
        i == sends(run_spec(s, events).actions).len() - 1,
    decreases events.len(),
{
    if events.len() > 0 {
        let e = events[0];
        let tail = events.drop_first();
        let first = step_spec(s, e);
        let rest = run_spec(first.next, tail);
        lemma_step_wf(s, e);
        lemma_sends_concat(first.actions, rest.actions);
        lemma_step_sends(s, e);
        if first.next.status is Closed {
            law_closed_stays_closed(first.next, tail);
            assert(sends(first.actions) + Seq::<Frame>::empty() =~= sends(first.actions));
        } else {
            let sent = sends(first.actions);
            if i >= sent.len() {
                assert((sent + sends(rest.actions))[i] == sends(rest.actions)[i - sent.len()]);
                law_close_is_last(first.next, tail, i - sent.len());
            } else {
                assert((sent + sends(rest.actions))[i] == sent[i]);
            }
        }
    }
}

/// A step sends at most one message, and a step that sends a close frame ends the
/// session.
pub proof fn lemma_step_sends(s: SessionView, e: EventView)
    ensures
        sends(step_spec(s, e).actions).len() <= 1,
        sends(step_spec(s, e).actions).len() == 1 && sends(step_spec(s, e).actions)[0] is Close
            ==> step_spec(s, e).next.status is Closed,
{
    let none = Seq::<ActionView>::empty();
    let nothing = Seq::<Frame>::empty();
    match s.status {
        Status::Closed(_) => {},
        Status::Connecting => {},
        Status::Running => {
            match e {
                EventView::Line(raw) => {
                    let d = dispatch_spec(raw);
                    let told = match d.feedback {
                        Some(text) => s.say(Tone::Feedback, text),
                        None => s,
                    };
                    let remember = seq![ActionView::Remember(trim(raw))];
                    assert(remember =~= none.push(ActionView::Remember(trim(raw))));
                    lemma_sends_push(none, ActionView::Remember(trim(raw)));
                    match d.message {
                        Some(m) => {
                            let r = relay(told, m);
                            lemma_sends_concat(remember, r.actions);
                            assert(nothing + sends(r.actions) =~= sends(r.actions));
                            if !told.writing {
                                lemma_send_now(told, m);
                            }
                        },
                        None => {},
                    }
                },
                EventView::Sent => {
                    if s.writing && s.channel.queue.len() > 0 {
                        let after = SessionView { channel: s.channel.advance(), ..s };
                        lemma_send_now(after, s.channel.queue[0]);
                    }
                },
                EventView::EndOfInput => { lemma_sends_shutdown(); },
                EventView::Interrupted => { lemma_sends_shutdown(); },
                EventView::InputFailed(_) => { lemma_sends_shutdown(); },
                EventView::PeerClosed => { lemma_sends_shutdown(); },
                EventView::ReceiveFailed(_) => { lemma_sends_shutdown(); },
                EventView::SendFailed(_) => { lemma_sends_shutdown(); },
                _ => {},
            }
        },
    }
}

/// What `inbound` makes of one more line.
pub proof fn lemma_inbound_push(output: Seq<LineView>, line: LineView)
    ensures
        inbound(output.push(line)) == (if line.tone == Tone::Inbound {
            inbound(output).push(line.text)
        } else {
            inbound(output)
        }),
{
    assert(output.push(line).drop_last() =~= output);
    assert(output.push(line).last() == line);
}

/// One step of a running session shows the message that came from the peer, if one
/// came, behind those shown before; no other line passes for a message from the peer.
pub proof fn lemma_step_inbound(s: SessionView, e: EventView)
    requires
        s.status is Running,
    ensures
        inbound(step_spec(s, e).next.output) == inbound(s.output) + received_by(e),
{
    let shown = inbound(s.output);
    assert(shown + Seq::<Seq<char>>::empty() =~= shown);
    match e {
        EventView::Line(raw) => {
            let d = dispatch_spec(raw);
            let told = match d.feedback {
                Some(text) => s.say(Tone::Feedback, text),
                None => s,
            };
            match d.feedback {
                Some(text) => {
                    lemma_inbound_push(s.output, LineView { tone: Tone::Feedback, text });
                },
                None => {},
            }
            lemma_inbound_push(
                told.output,
                LineView { tone: Tone::Error, text: "Outbound queue is full; message dropped"@ },
            );
        },
        EventView::EndOfInput => {
            lemma_inbound_push(s.output, LineView { tone: Tone::Notice, text: "Exiting..."@ });
        },
        EventView::Interrupted => {
            lemma_inbound_push(s.output, LineView { tone: Tone::Notice, text: "^C"@ });
        },
        EventView::InputFailed(why) => {
            let first = LineView { tone: Tone::Error, text: "Received err: "@ + why };
            lemma_inbound_push(s.output, first);
            lemma_inbound_push(
                s.output.push(first),
                LineView { tone: Tone::Notice, text: "Exiting..."@ },
            );
        },
        EventView::Received(text) => {
            lemma_inbound_push(s.output, LineView { tone: Tone::Inbound, text });
            assert(shown.push(text) =~= shown + seq![text]);
        },
        EventView::PeerClosed => {
            lemma_inbound_push(s.output, LineView { tone: Tone::Status, text: "Disconnected"@ });
        },
        EventView::ReceiveFailed(why) => {
            lemma_inbound_push(
                s.output,
                LineView { tone: Tone::Error, text: "Connection error: "@ + why },
            );
        },
        EventView::SendFailed(why) => {
            lemma_inbound_push(
                s.output,
                LineView { tone: Tone::Error, text: "Connection error: "@ + why },
            );
        },
        _ => {},
    }
}

/// Messages from the peer are shown in the order in which they came: what the sink
/// of a running session gains from `events` starts the messages that came by them,
/// and while the session runs it is all of them.
pub proof fn law_inbound_order(s: SessionView, events: Seq<EventView>)
    requires
        s.status is Running,
    ensures
        inbound(s.output).is_prefix_of(inbound(run_spec(s, events).next.output)),
        inbound(run_spec(s, events).next.output).is_prefix_of(
            inbound(s.output) + received(events),
        ),
        run_spec(s, events).next.status is Running ==> inbound(run_spec(s, events).next.output)
            == inbound(s.output) + received(events),
    decreases events.len(),
{
    let shown = inbound(s.output);
    if events.len() == 0 {
        assert(shown + received(events) =~= shown);
    } else {
        let e = events[0];
        let tail = events.drop_first();
        let first = step_spec(s, e);
        lemma_step_inbound(s, e);
        assert(shown + received(events) =~= (shown + received_by(e)) + received(tail));
        if first.next.status is Closed {
            law_closed_stays_closed(first.next, tail);
        } else {
            assert(first.next.status is Running);
            law_inbound_order(first.next, tail);
        }
    }
}

/// A message entered while the session accepts input is not lost: it leaves at once,
/// or it waits behind the messages that waited before it; the sink gains nothing but
/// the feedback of the dispatcher, of which there is none.
pub proof fn law_accepted_line_is_relayed(s: SessionView, raw: Seq<char>, m: Frame)
    requires
        s.wf(),
        s.accepts_input(),
        dispatch_spec(raw).message == Some(m),
    ensures
        ({
            let st = step_spec(s, EventView::Line(raw));
            &&& st.next.output == s.output
            &&& if s.writing {
                &&& st.next.channel.queue == s.channel.queue.push(m)
                &&& sends(st.actions) == Seq::<Frame>::empty()
                &&& st.next.status is Running
            } else {
                &&& sends(st.actions) == seq![m]
                &&& st.next.channel.queue == Seq::<Frame>::empty()
                &&& st.next.status is Running <==> !(m is Close)
            }
        }),
{
    crate::dispatch::law_message_or_feedback(raw);
    lemma_step_order(s, EventView::Line(raw));
    lemma_step_sends(s, EventView::Line(raw));
    let st = step_spec(s, EventView::Line(raw));
    let none = Seq::<ActionView>::empty();
    let remember = seq![ActionView::Remember(trim(raw))];
    assert(remember =~= none.push(ActionView::Remember(trim(raw))));
    lemma_sends_push(none, ActionView::Remember(trim(raw)));
    lemma_sends_concat(remember, relay(s, m).actions);
    assert(Seq::<Frame>::empty() + sends(relay(s, m).actions) =~= sends(relay(s, m).actions));
    if s.writing {
        assert(relay(s, m).actions =~= none);
    } else {
        lemma_send_now(s, m);
        assert(s.channel.queue =~= Seq::<Frame>::empty());
        assert(st.next.channel.queue =~= Seq::<Frame>::empty());
    }
}

} // verus!
