use wsrelay::app::{App, EXIT_STARTUP_FAILURE};
use wsrelay::builder::Config;
use wsrelay::handshake::{Header, RequestError};
use wsrelay::message::OutboundMessage;
use wsrelay::output::{OutputLine, Tone};
use wsrelay::session::{Action, Event, ShutdownCause, Status};

fn app_for(url: &str) -> App {
    App::builder().configure(Config::builder().connect(url.to_string()).build()).build()
}

fn out(tone: Tone, s: &str) -> OutputLine {
    OutputLine { tone, text: s.to_string() }
}

#[test]
fn config_builder_collects_the_parts() {
    let config = Config::builder()
        .connect("ws://a.test/".to_string())
        .auth(Some("u:p".to_string()))
        .header("Origin".to_string(), "http://o.test".to_string())
        .header("X-Two".to_string(), "2".to_string())
        .subprotocol("chat".to_string())
        .build();
    assert_eq!(config.connect, "ws://a.test/");
    assert_eq!(config.auth, Some("u:p".to_string()));
    assert_eq!(
        config.headers,
        vec![
            Header { name: "Origin".to_string(), value: "http://o.test".to_string() },
            Header { name: "X-Two".to_string(), value: "2".to_string() },
        ]
    );
    assert_eq!(config.subprotocol, Some("chat".to_string()));
}

#[test]
fn config_builder_defaults() {
    let builder = Config::builder();
    assert!(!builder.has_target());
    let builder = builder.connect("ws://a.test/".to_string());
    assert!(builder.has_target());
    let config = builder.build();
    assert_eq!(config.connect, "ws://a.test/");
    assert_eq!(config.auth, None);
    assert_eq!(config.headers, vec![]);
    assert_eq!(config.subprotocol, None);
}

#[test]
fn config_builder_replaces_what_was_given_before() {
    let config = Config::builder()
        .connect("ws://a.test/".to_string())
        .auth(Some("u:p".to_string()))
        .connect("ws://b.test/".to_string())
        .auth(None)
        .build();
    assert_eq!(config.connect, "ws://b.test/");
    assert_eq!(config.auth, None);
}

#[test]
fn app_builder_keeps_the_configuration() {
    let builder = App::builder();
    assert!(!builder.is_configured());
    let config = Config::builder().connect("ws://a.test/".to_string()).build();
    let builder = builder.configure(config.clone());
    assert!(builder.is_configured());
    let app = builder.build();
    assert_eq!(app.config, config);
    assert_eq!(app.status(), None);
    assert!(!app.is_finished());
    assert!(!app.accepts_input());
    assert_eq!(app.exit_code(), None);
}

#[test]
fn app_that_was_not_started_ignores_events() {
    let mut app = app_for("ws://example.test/socket");
    assert_eq!(app.step(&Event::Connected), vec![]);
    assert_eq!(app.step(&Event::Line("hello".to_string())), vec![]);
    assert_eq!(app.status(), None);
    assert_eq!(app.take_output(), vec![]);
}

#[test]
fn create_request_uses_the_configuration() {
    let config = Config::builder()
        .connect("ws://example.test/socket".to_string())
        .auth(Some("alice:secret".to_string()))
        .header("Origin".to_string(), "http://o.test".to_string())
        .build();
    let app = App::builder().configure(config).build();
    let request = app.create_request().unwrap();
    assert_eq!(request.uri, "ws://example.test/socket");
    assert_eq!(request.header("Host"), Some("example.test"));
    assert_eq!(request.header("Authorization"), Some("Basic YWxpY2U6c2VjcmV0"));
    assert_eq!(request.header("Origin"), Some("http://o.test"));
    assert_eq!(request.headers.len(), 7);
}

#[test]
fn start_asks_for_the_connection() {
    let mut app = app_for("ws://example.test/socket");
    let actions = app.start().unwrap();
    assert_eq!(actions.len(), 1);
    match &actions[0] {
        Action::Connect(request) => {
            assert_eq!(request.method, "GET");
            assert_eq!(request.uri, "ws://example.test/socket");
            assert_eq!(request.header("Authorization"), None);
        }
        other => panic!("unexpected action {:?}", other),
    }
    assert_eq!(app.status(), Some(Status::Connecting));
    assert!(!app.is_finished());
}

#[test]
fn start_refuses_an_invalid_target() {
    let mut app = app_for("http://example.test/");
    assert_eq!(app.start(), Err(RequestError::InvalidUrl));
    assert_eq!(app.status(), None);
    assert_eq!(app.run(&vec![Event::Connected]), Err(RequestError::InvalidUrl));
    assert_eq!(app.status(), None);
    assert_eq!(EXIT_STARTUP_FAILURE, 1);
}

#[test]
fn start_refuses_a_reserved_header() {
    let config = Config::builder()
        .connect("ws://example.test/".to_string())
        .header("Sec-WebSocket-Key".to_string(), "mine".to_string())
        .build();
    let mut app = App::builder().configure(config).build();
    assert_eq!(app.start(), Err(RequestError::ReservedHeader));
}

#[test]
fn start_again_opens_a_fresh_session() {
    let mut app = app_for("ws://example.test/socket");
    app.start().unwrap();
    app.step(&Event::Connected);
    app.step(&Event::EndOfInput);
    assert!(app.is_finished());
    app.start().unwrap();
    assert_eq!(app.status(), Some(Status::Connecting));
    assert_eq!(app.take_output(), vec![]);
}

#[test]
fn failed_handshake_gives_a_failure_exit_code() {
    let mut app = app_for("ws://example.test/socket");
    app.start().unwrap();
    assert_eq!(app.step(&Event::ConnectFailed("connection refused".to_string())), vec![]);
    assert!(app.is_finished());
    assert_eq!(app.exit_code(), Some(1));
    assert_eq!(
        app.take_output(),
        vec![out(Tone::Error, "Failed to connect: connection refused")]
    );
}

#[test]
fn end_to_end_echo() {
    let mut app = app_for("ws://example.test/socket");
    let start = app.start().unwrap();
    assert!(matches!(&start[0], Action::Connect(request) if request.header("Authorization").is_none()));
    assert_eq!(app.step(&Event::Connected), vec![]);
    assert!(app.accepts_input());

    let actions = app.step(&Event::Line("hello".to_string()));
    assert_eq!(
        actions,
        vec![
            Action::Remember("hello".to_string()),
            Action::Send(OutboundMessage::Text("hello".to_string())),
        ]
    );
    let mut echoes: Vec<Event> = Vec::new();
    for action in &actions {
        if let Action::Send(OutboundMessage::Text(payload)) = action {
            echoes.push(Event::Received(payload.to_uppercase()));
        }
    }
    assert_eq!(app.step(&Event::Sent), vec![]);
    assert_eq!(echoes, vec![Event::Received("HELLO".to_string())]);
    assert_eq!(app.step(&echoes[0]), vec![]);
    assert_eq!(
        app.take_output(),
        vec![
            out(Tone::Status, "Connected (press CTRL+C to quit)"),
            out(Tone::Inbound, "HELLO"),
        ]
    );
    assert!(!app.is_finished());
    assert_eq!(app.exit_code(), None);
}

#[test]
fn shutdown_on_end_of_input_does_not_wait_for_the_peer() {
    let mut app = app_for("ws://example.test/socket");
    app.start().unwrap();
    app.step(&Event::Connected);
    let actions = app.step(&Event::EndOfInput);
    assert_eq!(actions, vec![Action::CloseConnection, Action::StopInput]);
    assert!(app.is_finished());
    assert_eq!(app.status(), Some(Status::Closed(ShutdownCause::EndOfInput)));
    assert_eq!(app.exit_code(), Some(0));
    assert!(!app.accepts_input());
}

#[test]
fn run_puts_the_request_first() {
    let mut app = app_for("ws://example.test/socket");
    let events = vec![
        Event::Connected,
        Event::Line("hello".to_string()),
        Event::Sent,
        Event::Received("HELLO".to_string()),
        Event::EndOfInput,
    ];
    let trace = app.run(&events).unwrap();
    assert_eq!(trace.len(), 5);
    assert!(matches!(&trace[0], Action::Connect(request) if request.uri == "ws://example.test/socket"));
    assert_eq!(
        trace[1..],
        [
            Action::Remember("hello".to_string()),
            Action::Send(OutboundMessage::Text("hello".to_string())),
            Action::CloseConnection,
            Action::StopInput,
        ]
    );
    assert_eq!(
        app.take_output(),
        vec![
            out(Tone::Status, "Connected (press CTRL+C to quit)"),
            out(Tone::Inbound, "HELLO"),
            out(Tone::Notice, "Exiting..."),
        ]
    );
    assert_eq!(app.exit_code(), Some(0));
}
