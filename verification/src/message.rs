//! The messages that the client sends to its peer.

use vstd::prelude::*;

verus! {

/// A message on its way to the peer.
#[derive(Clone, Debug, PartialEq, Eq)]
pub enum OutboundMessage {
    /// A payload line.
    Text(String),
    /// A ping control frame, with its data if any.
    Ping(Option<String>),
    /// A pong control frame, with its data if any.
    Pong(Option<String>),
    /// A close control frame, with its status code and reason if any.
    Close(Option<u16>, Option<String>),
}

/// What an `OutboundMessage` stands for.
pub enum Frame {
    Text(Seq<char>),
    Ping(Option<Seq<char>>),
    Pong(Option<Seq<char>>),
    Close(Option<u16>, Option<Seq<char>>),
}

impl View for OutboundMessage {
    type V = Frame;

    open spec fn view(&self) -> Frame {
        match self {
            OutboundMessage::Text(payload) => Frame::Text(payload@),
            OutboundMessage::Ping(data) => Frame::Ping(data.deep_view()),
            OutboundMessage::Pong(data) => Frame::Pong(data.deep_view()),
            OutboundMessage::Close(code, reason) => Frame::Close(*code, reason.deep_view()),
        }
    }
}

impl DeepView for OutboundMessage {
    type V = Frame;

    open spec fn deep_view(&self) -> Frame {
        self@
    }
}

impl OutboundMessage {
    /// Whether this is a close frame.
    pub fn is_close(&self) -> (b: bool)
        ensures
            b == (self@ is Close),
    {
        match self {
            OutboundMessage::Close(_, _) => true,
            _ => false,
        }
    }
}

} // verus!
