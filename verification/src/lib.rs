//! The deterministic core of an interactive WebSocket terminal client.
//!
//! The client opens one connection, relays the lines that the user types to the peer
//! and the messages of the peer to the terminal, until one side ends the session.
//! Everything that waits (for the terminal, for the connection) lives in the program
//! around this library. The library holds what is decided:
//!
//! - `builder`: the connection configuration and its builder;
//! - `target`: the URL that is made of the target given on the command line;
//! - `handshake`: the upgrade request, with its key and its credential;
//! - `dispatch`: what a line typed by the user means;
//! - `message`: the messages that go to the peer;
//! - `channel`: the bounded queue between the input loop and the outbound relay;
//! - `output`: the sink through which every line for the terminal goes;
//! - `session`: what a session does in answer to each event, and when it ends;
//! - `laws`: what holds of every session, whatever happens to it;
//! - `app`: a configuration together with the session that it opens;
//! - `text`: the character-level helpers under all of these.
//!
//! Contracts speak of views: a string stands for its sequence of characters, a
//! message for its `Frame`, a session for its `SessionView`.

pub mod app;
pub mod builder;
pub mod channel;
pub mod dispatch;
pub mod handshake;
pub mod laws;
pub mod message;
pub mod output;
pub mod session;
pub mod target;
pub mod text;
