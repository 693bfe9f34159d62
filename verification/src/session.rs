//! The session runner: what the session does in answer to each thing that happens.
//!
//! Three activities share one session: the input loop, the inbound relay and the
//! outbound relay. Each of them blocks on something outside this library (the terminal,
//! the connection), so the program around the library does the waiting and reports what
//! happened as an `Event`; `Session::step` decides, and answers with the `Action`s to
//! perform, in order. Lines for the terminal go to the session's output sink.
//!
//! Messages go to the connection one at a time. While a write is under way, further
//! messages wait in the outbound channel, oldest first; `Sent` reports that the write
//! is done, and the next message leaves. A producer that asks `accepts_input` first is
//! never refused; a message that still finds the channel full is dropped with a notice.
//! A close frame is the last message that ever leaves.
//!
//! The session ends as soon as one activity signals the end: the end of the input, an
//! interrupt, a failure of the terminal or of the connection, the peer closing, or a
//! close frame sent. In that same step the session closes and empties the channel and
//! asks for the connection to be closed and for the input to stop, so that no activity
//! is left waiting for another. A session that has ended ignores every event.

use vstd::prelude::*;
use vstd::string::*;
use crate::channel::{ChannelView, OutboundChannel};
use crate::dispatch::{dispatch, dispatch_spec};
use crate::handshake::{HandshakeRequest, RequestView};
use crate::message::{Frame, OutboundMessage};
use crate::output::{LineView, OutputLine, OutputSink, Tone};
use crate::text::{chars_of, cut, join, trim, trim_window};

verus! {

/// Why a session ended.
#[derive(Clone, Copy, Debug, PartialEq, Eq, Structural)]
pub enum ShutdownCause {
    /// The connection could not be opened.
    HandshakeFailed,
    /// The connection was not open in time.
    HandshakeTimedOut,
    /// The input ended.
    EndOfInput,
    /// The user interrupted the input.
    Interrupted,
    /// The terminal failed.
    InputFailed,
    /// A close frame went to the peer.
    CloseSent,
    /// The peer closed the connection.
    PeerClosed,
    /// Reading from the connection or writing to it failed.
    TransportFailed,
}

/// Where a session stands.
#[derive(Clone, Copy, Debug, PartialEq, Eq, Structural)]
pub enum Status {
    /// The handshake is under way.
    Connecting,
    /// The connection is open and the three activities run.
    Running,
    /// The session has ended.
    Closed(ShutdownCause),
}

/// Something that happened outside the library.
#[derive(Clone, Debug, PartialEq, Eq)]
pub enum Event {
    /// The handshake succeeded.
    Connected,
    /// The handshake failed, with the cause in words.
    ConnectFailed(String),
    /// The handshake took too long.
    ConnectTimedOut,
    /// The user completed a line.
    Line(String),
    /// The input ended.
    EndOfInput,
    /// The user interrupted the input.
    Interrupted,
    /// The terminal failed, with the cause in words.
    InputFailed(String),
    /// A message came from the peer.
    Received(String),
    /// The peer closed the connection.
    PeerClosed,
    /// Reading from the connection failed, with the cause in words.
    ReceiveFailed(String),
    /// The write under way is done.
    Sent,
    /// The write under way failed, with the cause in words.
    SendFailed(String),
}

/// What an `Event` stands for.
pub enum EventView {
    Connected,
    ConnectFailed(Seq<char>),
    ConnectTimedOut,
    Line(Seq<char>),
    EndOfInput,
    Interrupted,
    InputFailed(Seq<char>),
    Received(Seq<char>),
    PeerClosed,
    ReceiveFailed(Seq<char>),
    Sent,
    SendFailed(Seq<char>),
}

impl View for Event {
    type V = EventView;

    open spec fn view(&self) -> EventView {
        match self {
            Event::Connected => EventView::Connected,
            Event::ConnectFailed(why) => EventView::ConnectFailed(why@),
            Event::ConnectTimedOut => EventView::ConnectTimedOut,
            Event::Line(raw) => EventView::Line(raw@),
            Event::EndOfInput => EventView::EndOfInput,
            Event::Interrupted => EventView::Interrupted,
            Event::InputFailed(why) => EventView::InputFailed(why@),
            Event::Received(text) => EventView::Received(text@),
            Event::PeerClosed => EventView::PeerClosed,
            Event::ReceiveFailed(why) => EventView::ReceiveFailed(why@),
            Event::Sent => EventView::Sent,
            Event::SendFailed(why) => EventView::SendFailed(why@),
        }
    }
}

impl DeepView for Event {
    type V = EventView;

    open spec fn deep_view(&self) -> EventView {
        self@
    }
}

/// Something for the program around the library to do.
#[derive(Clone, Debug, PartialEq, Eq)]
pub enum Action {
    /// Open the connection with this request, within a bounded time, and report
    /// `Connected`, `ConnectFailed` or `ConnectTimedOut`. No step asks for this: it is
    /// what starting an application asks for.
    Connect(HandshakeRequest),
    /// Write this message to the connection, and report `Sent` or `SendFailed`.
    Send(OutboundMessage),
    /// Add this line to the recall history of the input.
    Remember(String),
    /// Close the connection.
    CloseConnection,
    /// Stop reading input.
    StopInput,
}

/// What an `Action` stands for.
pub enum ActionView {
    Connect(RequestView),
    Send(Frame),
    Remember(Seq<char>),
    CloseConnection,
    StopInput,
}

impl View for Action {
    type V = ActionView;

    open spec fn view(&self) -> ActionView {
        match self {
            Action::Connect(request) => ActionView::Connect(request@),
            Action::Send(message) => ActionView::Send(message@),
            Action::Remember(line) => ActionView::Remember(line@),
            Action::CloseConnection => ActionView::CloseConnection,
            Action::StopInput => ActionView::StopInput,
        }
    }
}

impl DeepView for Action {
    type V = ActionView;

    open spec fn deep_view(&self) -> ActionView {
        self@
    }
}

/// What a `Session` stands for.
pub struct SessionView {
    /// Where the session stands.
    pub status: Status,
    /// The outbound channel.
    pub channel: ChannelView,
    /// Whether a write to the connection is under way.
    pub writing: bool,
    /// The lines written to the sink and not yet taken, oldest first.
    pub output: Seq<LineView>,
}

/// A session after a step, and what the step asks for.
pub struct Step {
    pub next: SessionView,
    pub actions: Seq<ActionView>,
}

impl SessionView {
    /// What holds of every session: the channel keeps its bound; it is closed exactly
    /// when the session has ended; messages wait only while a write is under way, and
    /// a write is under way only while the session runs.
    pub open spec fn wf(self) -> bool {
        &&& self.channel.wf()
        &&& self.channel.closed <==> self.status is Closed
        &&& self.channel.queue.len() > 0 ==> self.writing
        &&& self.writing ==> self.status is Running
    }

    /// A session at the start of the handshake, with a channel for `capacity` messages.
    pub open spec fn start(capacity: nat) -> SessionView {
        SessionView {
            status: Status::Connecting,
            channel: ChannelView { queue: Seq::empty(), capacity, closed: false },
            writing: false,
            output: Seq::empty(),
        }
    }

    /// Whether a line read now can be relayed without loss.
    pub open spec fn accepts_input(self) -> bool {
        self.status is Running && (!self.writing || self.channel.has_room())
    }

    /// The session with one more line in its sink.
    pub open spec fn say(self, tone: Tone, text: Seq<char>) -> SessionView {
        SessionView { output: self.output.push(LineView { tone, text }), ..self }
    }

    /// The session, ended for `cause`: the channel is closed and empty, and no write is
    /// under way.
    pub open spec fn shut(self, cause: ShutdownCause) -> SessionView {
        SessionView {
            status: Status::Closed(cause),
            channel: self.channel.shut(),
            writing: false,
            ..self
        }
    }
}

/// What every end of a running session asks for: the two other activities are stopped.
pub open spec fn shutdown_actions() -> Seq<ActionView> {
    seq![ActionView::CloseConnection, ActionView::StopInput]
}

/// A step that changes nothing and asks for nothing.
pub open spec fn idle(s: SessionView) -> Step {
    Step { next: s, actions: Seq::empty() }
}

/// The running session `s` ends for `cause`.
pub open spec fn stop(s: SessionView, cause: ShutdownCause) -> Step {
    Step { next: s.shut(cause), actions: shutdown_actions() }
}

/// The message `m` goes to the connection now. A close frame ends the session.
pub open spec fn send_now(s: SessionView, m: Frame) -> Step {
    if m is Close {
        Step {
            next: s.shut(ShutdownCause::CloseSent),
            actions: seq![ActionView::Send(m)] + shutdown_actions(),
        }
    } else {
        Step { next: SessionView { writing: true, ..s }, actions: seq![ActionView::Send(m)] }
    }
}

/// The message `m` is handed to the outbound relay: it leaves at once if no write is
/// under way, waits in the channel if there is room, and is dropped with a notice
/// otherwise.
pub open spec fn relay(s: SessionView, m: Frame) -> Step {
    if !s.writing {
        send_now(s, m)
    } else if s.channel.has_room() {
        Step { next: SessionView { channel: s.channel.offer(m), ..s }, actions: Seq::empty() }
    } else {
        idle(s.say(Tone::Error, "Outbound queue is full; message dropped"@))
    }
}

/// The user completed the line `raw`: the trimmed line goes to the history, the
/// feedback of the dispatcher to the sink, and its message to the outbound relay.
pub open spec fn on_line(s: SessionView, raw: Seq<char>) -> Step {
    let d = dispatch_spec(raw);
    let told = match d.feedback {
        Some(text) => s.say(Tone::Feedback, text),
        None => s,
    };
    let remember = seq![ActionView::Remember(trim(raw))];
    match d.message {
        Some(m) => Step { next: relay(told, m).next, actions: remember + relay(told, m).actions },
        None => Step { next: told, actions: remember },
    }
}

/// The write under way is done: the oldest message that waits leaves, if one waits.
pub open spec fn on_sent(s: SessionView) -> Step {
    if !s.writing {
        idle(s)
    } else if s.channel.queue.len() > 0 {
        send_now(SessionView { channel: s.channel.advance(), ..s }, s.channel.queue[0])
    } else {
        idle(SessionView { writing: false, ..s })
    }
}

/// What happens to a session whose handshake is under way.
pub open spec fn step_connecting(s: SessionView, e: EventView) -> Step {
    match e {
        EventView::Connected => idle(
            SessionView {
                status: Status::Running,
                ..s.say(Tone::Status, "Connected (press CTRL+C to quit)"@)
            },
        ),
        EventView::ConnectFailed(why) => idle(
            s.say(Tone::Error, "Failed to connect: "@ + why).shut(ShutdownCause::HandshakeFailed),
        ),
        EventView::ConnectTimedOut => idle(
            s.say(Tone::Error, "Failed to connect: the handshake timed out"@).shut(
                ShutdownCause::HandshakeTimedOut,
            ),
        ),
        _ => idle(s),
    }
}

/// What happens to a running session.
pub open spec fn step_running(s: SessionView, e: EventView) -> Step {
    match e {
        EventView::Line(raw) => on_line(s, raw),
        EventView::EndOfInput => stop(
            s.say(Tone::Notice, "Exiting..."@),
            ShutdownCause::EndOfInput,
        ),
        EventView::Interrupted => stop(s.say(Tone::Notice, "^C"@), ShutdownCause::Interrupted),
        EventView::InputFailed(why) => stop(
            s.say(Tone::Error, "Received err: "@ + why).say(Tone::Notice, "Exiting..."@),
            ShutdownCause::InputFailed,
        ),
        EventView::Received(text) => idle(s.say(Tone::Inbound, text)),
        EventView::PeerClosed => stop(
            s.say(Tone::Status, "Disconnected"@),
            ShutdownCause::PeerClosed,
        ),
        EventView::ReceiveFailed(why) => stop(
            s.say(Tone::Error, "Connection error: "@ + why),
            ShutdownCause::TransportFailed,
        ),
        EventView::Sent => on_sent(s),
        EventView::SendFailed(why) => stop(
            s.say(Tone::Error, "Connection error: "@ + why),
            ShutdownCause::TransportFailed,
        ),
        _ => idle(s),
    }
}

/// What happens to the session `s` when `e` happens.
pub open spec fn step_spec(s: SessionView, e: EventView) -> Step {
    match s.status {
        Status::Connecting => step_connecting(s, e),
        Status::Running => step_running(s, e),
        Status::Closed(_) => idle(s),
    }
}

/// Every step keeps what holds of every session.
pub proof fn lemma_step_wf(s: SessionView, e: EventView)
    requires
        s.wf(),
    ensures
        step_spec(s, e).next.wf(),
{
}

/// The state of a session, without its invariant.
struct Parts {
    status: Status,
    channel: OutboundChannel,
    writing: bool,
    sink: OutputSink,
}

impl View for Parts {
    type V = SessionView;

    closed spec fn view(&self) -> SessionView {
        SessionView {
            status: self.status,
            channel: self.channel@,
            writing: self.writing,
            output: self.sink@,
        }
    }
}

/// Adds `action` at the end of `actions`.
fn push_action(actions: &mut Vec<Action>, action: Action)
    ensures
        final(actions).deep_view() == old(actions).deep_view().push(action@),
{
    actions.push(action);
    proof {
        assert(actions.deep_view() =~= old(actions).deep_view().push(action@));
    }
}

impl Parts {
    fn start(capacity: usize) -> (p: Parts)
        ensures
            p@ == SessionView::start(capacity as nat),
    {
        Parts {
            status: Status::Connecting,
            channel: OutboundChannel::new(capacity),
            writing: false,
            sink: OutputSink::new(),
        }
    }

    fn say(&mut self, tone: Tone, text: String)
        ensures
            final(self)@ == old(self)@.say(tone, text@),
    {
        self.sink.write(tone, text);
    }

    fn shut(&mut self, cause: ShutdownCause)
        ensures
            final(self)@ == old(self)@.shut(cause),
    {
        self.status = Status::Closed(cause);
        self.channel.close();
        self.writing = false;
    }

    fn stop(&mut self, cause: ShutdownCause, actions: &mut Vec<Action>)
        ensures
            final(self)@ == stop(old(self)@, cause).next,
            final(actions).deep_view() == old(actions).deep_view() + stop(
                old(self)@,
                cause,
            ).actions,
    {
        self.shut(cause);
        push_action(actions, Action::CloseConnection);
        push_action(actions, Action::StopInput);
        proof {
            assert(actions.deep_view() =~= old(actions).deep_view() + shutdown_actions());
        }
    }

    fn send_now(&mut self, message: OutboundMessage, actions: &mut Vec<Action>)
        ensures
            final(self)@ == send_now(old(self)@, message@).next,
            final(actions).deep_view() == old(actions).deep_view() + send_now(
                old(self)@,
                message@,
            ).actions,
    {
        let closing: bool = message.is_close();
        push_action(actions, Action::Send(message));
        if closing {
            self.stop(ShutdownCause::CloseSent, actions);
            proof {
                assert(actions.deep_view() =~= old(actions).deep_view() + (seq![
                    ActionView::Send(message@),
                ] + shutdown_actions()));
            }
        } else {
            self.writing = true;
            proof {
                assert(actions.deep_view() =~= old(actions).deep_view() + seq![
                    ActionView::Send(message@),
                ]);
            }
        }
    }

    fn relay(&mut self, message: OutboundMessage, actions: &mut Vec<Action>)
        ensures
            final(self)@ == relay(old(self)@, message@).next,
            final(actions).deep_view() == old(actions).deep_view() + relay(
                old(self)@,
                message@,
            ).actions,
    {
        if !self.writing {
            self.send_now(message, actions);
        } else if self.channel.has_room() {
            let _ = self.channel.try_send(message);
            proof {
                assert(actions.deep_view() =~= old(actions).deep_view() + Seq::<
                    ActionView,
                >::empty());
            }
        } else {
            self.say(Tone::Error, String::from_str("Outbound queue is full; message dropped"));
            proof {
                assert(actions.deep_view() =~= old(actions).deep_view() + Seq::<
                    ActionView,
                >::empty());
            }
        }
    }

    fn on_line(&mut self, raw: &str, actions: &mut Vec<Action>)
        ensures
            final(self)@ == on_line(old(self)@, raw@).next,
            final(actions).deep_view() == old(actions).deep_view() + on_line(
                old(self)@,
                raw@,
            ).actions,
    {
        let v: Vec<char> = chars_of(raw);
        let (a, b) = trim_window(&v, 0, v.len());
        proof {
            assert(v@.subrange(0, v.len() as int) =~= raw@);
        }
        push_action(actions, Action::Remember(cut(raw, a, b)));
        let ghost remembered = actions.deep_view();
        let (message, feedback) = dispatch(raw);
        match feedback {
            Some(text) => { self.say(Tone::Feedback, text); },
            None => {},
        }
        let ghost told = self@;
        match message {
            Some(m) => {
                self.relay(m, actions);
                proof {
                    assert(actions.deep_view() =~= old(actions).deep_view() + (seq![
                        ActionView::Remember(trim(raw@)),
                    ] + relay(told, m@).actions));
                }
            },
            None => {
                proof {
                    assert(actions.deep_view() =~= old(actions).deep_view() + seq![
                        ActionView::Remember(trim(raw@)),
                    ]);
                }
            },
        }
    }

    fn on_sent(&mut self, actions: &mut Vec<Action>)
        ensures
            final(self)@ == on_sent(old(self)@).next,
            final(actions).deep_view() == old(actions).deep_view() + on_sent(old(self)@).actions,
    {
        if !self.writing {
            proof {
                assert(actions.deep_view() =~= old(actions).deep_view() + Seq::<
                    ActionView,
                >::empty());
            }
            return ;
        }
        match self.channel.recv() {
            Some(message) => {
                self.send_now(message, actions);
            },
            None => {
                self.writing = false;
                proof {
                    assert(actions.deep_view() =~= old(actions).deep_view() + Seq::<
                        ActionView,
                    >::empty());
                }
            },
        }
    }

    fn step_connecting(&mut self, event: &Event)
        requires
            old(self)@.status is Connecting,
        ensures
            final(self)@ == step_connecting(old(self)@, event@).next,
            step_connecting(old(self)@, event@).actions == Seq::<ActionView>::empty(),
    {
        match event {
            Event::Connected => {
                self.say(Tone::Status, String::from_str("Connected (press CTRL+C to quit)"));
                self.status = Status::Running;
            },
            Event::ConnectFailed(why) => {
                self.say(Tone::Error, join("Failed to connect: ", why.as_str()));
                self.shut(ShutdownCause::HandshakeFailed);
            },
            Event::ConnectTimedOut => {
                self.say(
                    Tone::Error,
                    String::from_str("Failed to connect: the handshake timed out"),
                );
                self.shut(ShutdownCause::HandshakeTimedOut);
            },
            _ => {},
        }
    }

    fn step_running(&mut self, event: &Event, actions: &mut Vec<Action>)
        requires
            old(self)@.status is Running,
        ensures
            final(self)@ == step_running(old(self)@, event@).next,
            final(actions).deep_view() == old(actions).deep_view() + step_running(
                old(self)@,
                event@,
            ).actions,
    {
        match event {
            Event::Line(raw) => {
                self.on_line(raw.as_str(), actions);
            },
            Event::EndOfInput => {
                self.say(Tone::Notice, String::from_str("Exiting..."));
                self.stop(ShutdownCause::EndOfInput, actions);
            },
            Event::Interrupted => {
                self.say(Tone::Notice, String::from_str("^C"));
                self.stop(ShutdownCause::Interrupted, actions);
            },
            Event::InputFailed(why) => {
                self.say(Tone::Error, join("Received err: ", why.as_str()));
                self.say(Tone::Notice, String::from_str("Exiting..."));
                self.stop(ShutdownCause::InputFailed, actions);
            },
            Event::Received(text) => {
                self.say(Tone::Inbound, text.clone());
                proof {
                    assert(actions.deep_view() =~= old(actions).deep_view() + Seq::<
                        ActionView,
                    >::empty());
                }
            },
            Event::PeerClosed => {
                self.say(Tone::Status, String::from_str("Disconnected"));
                self.stop(ShutdownCause::PeerClosed, actions);
            },
            Event::ReceiveFailed(why) => {
                self.say(Tone::Error, join("Connection error: ", why.as_str()));
                self.stop(ShutdownCause::TransportFailed, actions);
            },
            Event::Sent => {
                self.on_sent(actions);
            },
            Event::SendFailed(why) => {
                self.say(Tone::Error, join("Connection error: ", why.as_str()));
                self.stop(ShutdownCause::TransportFailed, actions);
            },
            _ => {
                proof {
                    assert(actions.deep_view() =~= old(actions).deep_view() + Seq::<
                        ActionView,
                    >::empty());
                }
            },
        }
    }

    fn step(&mut self, event: &Event) -> (actions: Vec<Action>)
        ensures
            final(self)@ == step_spec(old(self)@, event@).next,
            actions.deep_view() == step_spec(old(self)@, event@).actions,
    {
        let mut actions: Vec<Action> = Vec::new();
        proof {
            assert(actions.deep_view() =~= Seq::<ActionView>::empty());
        }
        match self.status {
            Status::Connecting => {
                self.step_connecting(event);
            },
            Status::Running => {
                self.step_running(event, &mut actions);
                proof {
                    assert(actions.deep_view() =~= step_running(old(self)@, event@).actions);
                }
            },
            Status::Closed(_) => {},
        }
        actions
    }
}

/// The number of messages that the outbound channel of an application's session holds
/// at most.
pub const OUTBOUND_CAPACITY: usize = 64;

/// The number of seconds after which a handshake that is still under way has taken
/// too long, and `ConnectTimedOut` is due.
pub const HANDSHAKE_TIMEOUT_SECS: u64 = 30;

/// The number of seconds that closing the connection may take before the connection
/// is dropped as it is.
pub const SHUTDOWN_GRACE_SECS: u64 = 5;

impl ShutdownCause {
    /// Whether the session ended in good order: the user ended it, or the peer closed.
    pub open spec fn is_graceful(self) -> bool {
        self is EndOfInput || self is Interrupted || self is CloseSent || self is PeerClosed
    }

    /// The exit code of the process for this end of the session.
    pub open spec fn exit_code_spec(self) -> u8 {
        if self.is_graceful() {
            0
        } else {
            1
        }
    }

    /// The exit code of the process for this end of the session: 0 where the user
    /// ended it or the peer closed, 1 where the handshake, the connection or the
    /// terminal failed.
    pub fn exit_code(self) -> (code: u8)
        ensures
            code == self.exit_code_spec(),
    {
        match self {
            ShutdownCause::EndOfInput => 0,
            ShutdownCause::Interrupted => 0,
            ShutdownCause::CloseSent => 0,
            ShutdownCause::PeerClosed => 0,
            _ => 1,
        }
    }
}

/// What `events`, one after the other, do to the session `s`: the session after the
/// last of them, and everything that was asked for on the way, in order.
pub open spec fn run_spec(s: SessionView, events: Seq<EventView>) -> Step
    decreases events.len(),
{
    if events.len() == 0 {
        idle(s)
    } else {
        let first = step_spec(s, events[0]);
        let rest = run_spec(first.next, events.drop_first());
        Step { next: rest.next, actions: first.actions + rest.actions }
    }
}

/// Running `events` and then one more event is running them all.
pub proof fn lemma_run_push(s: SessionView, events: Seq<EventView>, e: EventView)
    ensures
        run_spec(s, events.push(e)).next == step_spec(run_spec(s, events).next, e).next,
        run_spec(s, events.push(e)).actions == run_spec(s, events).actions + step_spec(
            run_spec(s, events).next,
            e,
        ).actions,
    decreases events.len(),
{
    let all = events.push(e);
    assert(all.len() > 0);
    if events.len() == 0 {
        let one = step_spec(s, e);
        assert(all[0] == e);
        assert(all.drop_first() =~= Seq::<EventView>::empty());
        assert(run_spec(one.next, all.drop_first()) == idle(one.next));
        assert(run_spec(s, events) == idle(s));
        assert(one.actions + Seq::<ActionView>::empty() =~= one.actions);
        assert(Seq::<ActionView>::empty() + one.actions =~= one.actions);
    } else {
        let first = step_spec(s, events[0]);
        assert(all[0] == events[0]);
        assert(all.drop_first() =~= events.drop_first().push(e));
        lemma_run_push(first.next, events.drop_first(), e);
        let rest = run_spec(first.next, events.drop_first());
        let last = step_spec(rest.next, e);
        assert(run_spec(s, events).actions == first.actions + rest.actions);
        assert(run_spec(s, all).actions == first.actions + (rest.actions + last.actions));
        assert(first.actions + (rest.actions + last.actions) =~= (first.actions + rest.actions)
            + last.actions);
    }
}

/// Every run keeps what holds of every session.
pub proof fn lemma_run_wf(s: SessionView, events: Seq<EventView>)
    requires
        s.wf(),
    ensures
        run_spec(s, events).next.wf(),
    decreases events.len(),
{
    if events.len() > 0 {
        lemma_step_wf(s, events[0]);
        lemma_run_wf(step_spec(s, events[0]).next, events.drop_first());
    }
}

/// One interactive session: the outbound channel, the output sink, and where the
/// connection and its three activities stand.
pub struct Session {
    parts: Parts,
}

impl View for Session {
    type V = SessionView;

    closed spec fn view(&self) -> SessionView {
        self.parts@
    }
}

impl Session {
    /// What holds of every session.
    #[verifier::type_invariant]
    pub open spec fn inv(self) -> bool {
        self@.wf()
    }

    /// A session at the start of the handshake, with an outbound channel for
    /// `capacity` messages and an empty sink.
    pub fn new(capacity: usize) -> (session: Session)
        ensures
            session@ == SessionView::start(capacity as nat),
    {
        Session { parts: Parts::start(capacity) }
    }

    /// Where the session stands.
    pub fn status(&self) -> (status: Status)
        ensures
            status == self@.status,
    {
        self.parts.status
    }

    /// Whether the connection is open and the session has not ended.
    pub fn is_running(&self) -> (b: bool)
        ensures
            b == (self@.status is Running),
    {
        match self.parts.status {
            Status::Running => true,
            _ => false,
        }
    }

    /// Why the session ended, if it has ended.
    pub fn cause(&self) -> (cause: Option<ShutdownCause>)
        ensures
            cause == (match self@.status {
                Status::Closed(c) => Some(c),
                _ => None,
            }),
    {
        match self.parts.status {
            Status::Closed(c) => Some(c),
            _ => None,
        }
    }

    /// Whether a line read now can be relayed without loss: the session runs, and
    /// either no write is under way or the outbound channel has room. The input loop
    /// waits while this is false.
    pub fn accepts_input(&self) -> (b: bool)
        ensures
            b == self@.accepts_input(),
    {
        self.is_running() && (!self.parts.writing || self.parts.channel.has_room())
    }

    /// Whether a write to the connection is under way.
    pub fn is_writing(&self) -> (b: bool)
        ensures
            b == self@.writing,
    {
        self.parts.writing
    }

    /// The number of messages that wait in the outbound channel.
    pub fn waiting(&self) -> (n: usize)
        ensures
            n == self@.channel.queue.len(),
    {
        self.parts.channel.len()
    }

    /// The number of messages that the outbound channel holds at most.
    pub fn capacity(&self) -> (n: usize)
        ensures
            n == self@.channel.capacity,
    {
        self.parts.channel.capacity()
    }

    /// Takes the lines written to the sink since the last call, oldest first.
    pub fn take_output(&mut self) -> (lines: Vec<OutputLine>)
        ensures
            lines.deep_view() == old(self)@.output,
            final(self)@ == (SessionView { output: Seq::empty(), ..old(self)@ }),
    {
        proof {
            use_type_invariant(&*self);
        }
        let mut parts: Parts = Parts::start(0);
        std::mem::swap(&mut parts, &mut self.parts);
        let lines = parts.sink.take();
        self.parts = parts;
        lines
    }

    /// Answers one event: the session moves on as `step_spec` says, and the actions
    /// that it asks for come back, in the order in which to perform them.
    pub fn step(&mut self, event: &Event) -> (actions: Vec<Action>)
        ensures
            final(self)@ == step_spec(old(self)@, event@).next,
            actions.deep_view() == step_spec(old(self)@, event@).actions,
    {
        proof {
            use_type_invariant(&*self);
            lemma_step_wf(self@, event@);
        }
        let mut parts: Parts = Parts::start(0);
        std::mem::swap(&mut parts, &mut self.parts);
        let actions = parts.step(event);
        self.parts = parts;
        actions
    }

    /// Answers `events` one after the other, and gives back everything that was asked
    /// for on the way, in order.
    pub fn run(&mut self, events: &Vec<Event>) -> (trace: Vec<Action>)
        ensures
            final(self)@ == run_spec(old(self)@, events.deep_view()).next,
            trace.deep_view() == run_spec(old(self)@, events.deep_view()).actions,
    {
        let mut trace: Vec<Action> = Vec::new();
        let ghost all = events.deep_view();
        proof {
            assert(trace.deep_view() =~= Seq::<ActionView>::empty());
            assert(all.take(0) =~= Seq::<EventView>::empty());
        }
        let mut i: usize = 0;
        while i < events.len()
            invariant
                i <= events.len(),
                all == events.deep_view(),
                self@ == run_spec(old(self)@, all.take(i as int)).next,
                trace.deep_view() == run_spec(old(self)@, all.take(i as int)).actions,
            decreases events.len() - i,
        {
            let ghost before = trace.deep_view();
            let mut actions = self.step(&events[i]);
            let ghost added = actions.deep_view();
            trace.append(&mut actions);
            proof {
                assert(trace.deep_view() =~= before + added);
                assert(all.take(i + 1) =~= all.take(i as int).push(all[i as int]));
                lemma_run_push(old(self)@, all.take(i as int), all[i as int]);
            }
            i = i + 1;
        }
        proof {
            assert(all.take(events.len() as int) =~= all);
        }
        trace
    }
}

} // verus!
