//! The application: a configuration, and the session that it opens.

use vstd::prelude::*;
use crate::builder::{Config, ConfigView};
use crate::handshake::{
    base64_standard, build_request, credential_token, is_built, is_key, is_request_for,
    rejection, request_spec, url_parts, HandshakeRequest, RequestError,
};
use crate::output::{LineView, OutputLine};
use crate::session::{
    run_spec, step_spec, Action, ActionView, Event, EventView, Session, SessionView, Status,
    OUTBOUND_CAPACITY,
};

verus! {

/// The exit code of a process whose session never started.
pub const EXIT_STARTUP_FAILURE: u8 = 1;

/// An application: its configuration and, once started, its session.
pub struct App {
    pub config: Config,
    session: Option<Session>,
}

/// What an `App` stands for.
pub struct AppView {
    pub config: ConfigView,
    /// The session, once the application was started.
    pub session: Option<SessionView>,
}

impl View for App {
    type V = AppView;

    closed spec fn view(&self) -> AppView {
        AppView {
            config: self.config@,
            session: match self.session {
                Some(session) => Some(session@),
                None => None,
            },
        }
    }
}

/// Collects what an `App` is made of.
#[derive(Debug)]
pub struct AppBuilder {
    config: Option<Config>,
}

impl View for AppBuilder {
    type V = Option<ConfigView>;

    closed spec fn view(&self) -> Option<ConfigView> {
        match self.config {
            Some(config) => Some(config@),
            None => None,
        }
    }
}

impl Default for AppBuilder {
    fn default() -> (b: AppBuilder)
        ensures
            b@ is None,
    {
        AppBuilder { config: None }
    }
}

/// What starting an application with the configuration `config` asks for, when the
/// system hands out the random bytes `key`.
pub open spec fn connect_actions(config: ConfigView, key: Seq<u8>) -> Seq<ActionView> {
    seq![
        ActionView::Connect(
            request_spec(
                url_parts(config.connect)->0,
                base64_standard(key),
                credential_token(config.auth),
                config.headers,
            ),
        ),
    ]
}

/// The session of an application that was just started.
pub open spec fn fresh_session() -> SessionView {
    SessionView::start(OUTBOUND_CAPACITY as nat)
}

/// Whether `r` and `session` are a possible outcome of starting an application with
/// the configuration `config` and then answering `events`: the refusal and no
/// session, where the target or the headers are refused; otherwise `NoEntropy` and no
/// session, or, for some key, the request to connect followed by what the session
/// asked for, and the session after the last event.
pub open spec fn is_run(
    r: Result<Vec<Action>, RequestError>,
    session: Option<SessionView>,
    config: ConfigView,
    events: Seq<EventView>,
) -> bool {
    match rejection(url_parts(config.connect), config.headers) {
        Some(error) => r matches Err(e) && e == error && session is None,
        None => {
            ||| r matches Err(e) && e == RequestError::NoEntropy && session is None
            ||| {
                &&& r matches Ok(trace)
                &&& session == Some(run_spec(fresh_session(), events).next)
                &&& exists|key: Seq<u8>| #[trigger]
                    is_key(key) && trace.deep_view() == connect_actions(config, key) + run_spec(
                        fresh_session(),
                        events,
                    ).actions
            }
        },
    }
}

impl App {
    /// A builder to which no configuration was given yet.
    pub fn builder() -> (b: AppBuilder)
        ensures
            b@ is None,
    {
        AppBuilder::default()
    }

    /// Builds the upgrade request for the configured target, with the configured
    /// credential and headers and a fresh key.
    pub fn create_request(&self) -> (r: Result<HandshakeRequest, RequestError>)
        ensures
            is_built(r, self@.config.connect, self@.config.auth, self@.config.headers),
    {
        let credential: Option<&str> = match &self.config.auth {
            Some(c) => Some(c.as_str()),
            None => None,
        };
        build_request(self.config.connect.as_str(), credential, &self.config.headers)
    }

    /// Starts the application: builds the upgrade request and, if there is one, opens
    /// a fresh session for it and asks for the connection. A session from an earlier
    /// start is dropped either way.
    pub fn start(&mut self) -> (r: Result<Vec<Action>, RequestError>)
        ensures
            final(self)@.config == old(self)@.config,
            is_run(r, final(self)@.session, old(self)@.config, Seq::empty()),
    {
        self.session = None;
        match self.create_request() {
            Ok(request) => {
                let ghost config = self@.config;
                let ghost key = choose|key: Seq<u8>| #[trigger]
                    is_key(key) && is_request_for(
                        Ok(request),
                        config.connect,
                        key,
                        config.auth,
                        config.headers,
                    );
                self.session = Some(Session::new(OUTBOUND_CAPACITY));
                let mut actions: Vec<Action> = Vec::new();
                actions.push(Action::Connect(request));
                proof {
                    assert(actions.deep_view() =~= connect_actions(config, key) + run_spec(
                        fresh_session(),
                        Seq::empty(),
                    ).actions);
                    assert(is_key(key));
                }
                Ok(actions)
            },
            Err(error) => Err(error),
        }
    }

    /// Answers one event. An application that was not started, or whose start failed,
    /// has no session: it ignores the event.
    pub fn step(&mut self, event: &Event) -> (actions: Vec<Action>)
        ensures
            final(self)@.config == old(self)@.config,
            match old(self)@.session {
                Some(session) => {
                    &&& final(self)@.session == Some(step_spec(session, event@).next)
                    &&& actions.deep_view() == step_spec(session, event@).actions
                },
                None => final(self)@.session is None && actions.deep_view() == Seq::<
                    ActionView,
                >::empty(),
            },
    {
        match self.session.take() {
            Some(session) => {
                let mut session = session;
                let actions = session.step(event);
                self.session = Some(session);
                actions
            },
            None => {
                let actions: Vec<Action> = Vec::new();
                proof {
                    assert(actions.deep_view() =~= Seq::<ActionView>::empty());
                }
                actions
            },
        }
    }

    /// Starts the application and answers `events` one after the other. What comes
    /// back is everything that was asked for, in order: the request to connect first.
    pub fn run(&mut self, events: &Vec<Event>) -> (r: Result<Vec<Action>, RequestError>)
        ensures
            final(self)@.config == old(self)@.config,
            is_run(r, final(self)@.session, old(self)@.config, events.deep_view()),
    {
        let mut trace: Vec<Action> = match self.start() {
            Ok(actions) => actions,
            Err(error) => { return Err(error); },
        };
        let ghost config = self@.config;
        let ghost key = choose|key: Seq<u8>| #[trigger]
            is_key(key) && trace.deep_view() == connect_actions(config, key) + run_spec(
                fresh_session(),
                Seq::empty(),
            ).actions;
        let ghost head = trace.deep_view();
        match self.session.take() {
            Some(session) => {
                let mut session = session;
                let mut rest = session.run(events);
                let ghost tail = rest.deep_view();
                trace.append(&mut rest);
                self.session = Some(session);
                proof {
                    assert(head =~= connect_actions(config, key));
                    assert(trace.deep_view() =~= head + tail);
                    assert(is_key(key));
                }
                Ok(trace)
            },
            None => Ok(trace),
        }
    }

    /// Takes the lines written to the sink since the last call, oldest first.
    pub fn take_output(&mut self) -> (lines: Vec<OutputLine>)
        ensures
            final(self)@.config == old(self)@.config,
            match old(self)@.session {
                Some(session) => {
                    &&& lines.deep_view() == session.output
                    &&& final(self)@.session == Some(
                        SessionView { output: Seq::empty(), ..session },
                    )
                },
                None => final(self)@.session is None && lines.deep_view() == Seq::<
                    LineView,
                >::empty(),
            },
    {
        match self.session.take() {
            Some(session) => {
                let mut session = session;
                let lines = session.take_output();
                self.session = Some(session);
                lines
            },
            None => {
                let lines: Vec<OutputLine> = Vec::new();
                proof {
                    assert(lines.deep_view() =~= Seq::<LineView>::empty());
                }
                lines
            },
        }
    }

    /// Where the session stands, if the application has one.
    pub fn status(&self) -> (status: Option<Status>)
        ensures
            status == (match self@.session {
                Some(session) => Some(session.status),
                None => None,
            }),
    {
        match &self.session {
            Some(session) => Some(session.status()),
            None => None,
        }
    }

    /// Whether the session has ended.
    pub fn is_finished(&self) -> (b: bool)
        ensures
            b == (self@.session matches Some(session) && session.status is Closed),
    {
        match &self.session {
            Some(session) => session.cause().is_some(),
            None => false,
        }
    }

    /// Whether a line read now can be relayed without loss.
    pub fn accepts_input(&self) -> (b: bool)
        ensures
            b == (self@.session matches Some(session) && session.accepts_input()),
    {
        match &self.session {
            Some(session) => session.accepts_input(),
            None => false,
        }
    }

    /// The exit code of the process, once the session has ended.
    pub fn exit_code(&self) -> (code: Option<u8>)
        ensures
            code == (match self@.session {
                Some(session) => match session.status {
                    Status::Closed(cause) => Some(cause.exit_code_spec()),
                    _ => None,
                },
                None => None,
            }),
    {
        match &self.session {
            Some(session) => match session.cause() {
                Some(cause) => Some(cause.exit_code()),
                None => None,
            },
            None => None,
        }
    }
}

impl AppBuilder {
    /// Sets the configuration; one given before is replaced.
    pub fn configure(self, config: Config) -> (b: AppBuilder)
        ensures
            b@ == Some(config@),
    {
        let mut b = self;
        b.config = Some(config);
        b
    }

    /// Whether a configuration was given, so that `build` can be called.
    pub fn is_configured(&self) -> (b: bool)
        ensures
            b == (self@ is Some),
    {
        self.config.is_some()
    }

    /// The application for the configuration given. It has no session before it is
    /// started. A configuration must have been given.
    pub fn build(self) -> (app: App)
        requires
            self@ is Some,
        ensures
            app@ == (AppView { config: self@->0, session: None }),
    {
        App { config: self.config.unwrap(), session: None }
    }
}

} // verus!
