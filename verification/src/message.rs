//! The messages that peers exchange.

use vstd::prelude::*;

verus! {

/// What a peer says when it ends the connection.
#[derive(Debug, PartialEq, Eq)]
pub struct CloseFrame {
    /// The status code of the close.
    pub code: u16,
    /// The reason, as text.
    pub reason: String,
}

/// The mathematical value of a [`CloseFrame`].
pub struct CloseFrameView {
    pub code: u16,
    pub reason: Seq<char>,
}

impl View for CloseFrame {
    type V = CloseFrameView;

    open spec fn view(&self) -> CloseFrameView {
        CloseFrameView { code: self.code, reason: self.reason@ }
    }
}

impl Clone for CloseFrame {
    /// A copy with the same code and the same reason.
    fn clone(&self) -> (copy: Self)
        ensures
            copy@ == self@,
    {
        CloseFrame { code: self.code, reason: self.reason.clone() }
    }
}

/// One message frame: a payload together with its kind. Only the kind
/// `Close` matters to the hub; payloads are carried, never read.
#[derive(Debug, PartialEq, Eq)]
pub enum Message {
    /// A text payload.
    Text(String),
    /// A binary payload.
    Binary(Vec<u8>),
    /// A ping with its payload.
    Ping(Vec<u8>),
    /// A pong with its payload.
    Pong(Vec<u8>),
    /// The signal that the sender is ending the connection.
    Close(Option<CloseFrame>),
}

/// The mathematical value of a [`Message`].
pub enum MessageView {
    Text(Seq<char>),
    Binary(Seq<u8>),
    Ping(Seq<u8>),
    Pong(Seq<u8>),
    Close(Option<CloseFrameView>),
}

impl View for Message {
    type V = MessageView;

    open spec fn view(&self) -> MessageView {
        match *self {
            Message::Text(s) => MessageView::Text(s@),
            Message::Binary(b) => MessageView::Binary(b@),
            Message::Ping(b) => MessageView::Ping(b@),
            Message::Pong(b) => MessageView::Pong(b@),
            Message::Close(None) => MessageView::Close(None),
            Message::Close(Some(frame)) => MessageView::Close(Some(frame@)),
        }
    }
}

impl Clone for Message {
    /// A copy of the same kind with the same payload.
    fn clone(&self) -> (copy: Self)
        ensures
            copy@ == self@,
    {
        match self {
            Message::Text(s) => Message::Text(s.clone()),
            Message::Binary(b) => Message::Binary(b.clone()),
            Message::Ping(b) => Message::Ping(b.clone()),
            Message::Pong(b) => Message::Pong(b.clone()),
            Message::Close(None) => Message::Close(None),
            Message::Close(Some(frame)) => Message::Close(Some(frame.clone())),
        }
    }
}

impl Message {
    /// Whether the message is of the close kind, in specifications.
    pub open spec fn spec_is_close(&self) -> bool {
        self@ is Close
    }

    /// Whether the message is of the close kind.
    #[verifier::when_used_as_spec(spec_is_close)]
    pub fn is_close(&self) -> (b: bool)
        ensures
            b == self.spec_is_close(),
    {
        match self {
            Message::Close(_) => true,
            _ => false,
        }
    }
}

} // verus!
