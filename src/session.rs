use vstd::prelude::*;

verus! {

/// One frame read from a shard's gateway connection.
pub enum Frame {
    Binary(Vec<u8>),
    Text(String),
    Ping(Vec<u8>),
    Pong(Vec<u8>),
}

pub ghost enum FrameModel {
    Binary(Seq<u8>),
    Text(Seq<char>),
    Ping(Seq<u8>),
    Pong(Seq<u8>),
}

impl View for Frame {
    type V = FrameModel;

    open spec fn view(&self) -> FrameModel {
        match self {
            Frame::Binary(b) => FrameModel::Binary(b@),
            Frame::Text(s) => FrameModel::Text(s@),
            Frame::Ping(b) => FrameModel::Ping(b@),
            Frame::Pong(b) => FrameModel::Pong(b@),
        }
    }
}

/// A liveness control frame, answered by the transport and never forwarded.
pub open spec fn is_control(f: FrameModel) -> bool {
    f is Ping || f is Pong
}

/// The close frame that a peer sent when it closed the connection.
pub struct CloseFrame {
    pub code: u16,
    pub reason: String,
}

/// Why reading the next frame from a shard's connection failed.
pub enum TransportError {
    /// The frame stream produced no value.
    StreamEnded,
    /// A frame was larger than the transport accepts.
    Capacity(String),
    /// The connection was closed, with the peer's close frame if it sent one.
    ConnectionClosed(Option<CloseFrame>),
    /// The peer broke the protocol.
    Protocol(String),
    /// Any other failure.
    Other,
}

pub ghost enum TransportErrorModel {
    StreamEnded,
    Capacity,
    ConnectionClosed { with_reason: bool },
    Protocol(Seq<char>),
    Other,
}

impl View for TransportError {
    type V = TransportErrorModel;

    open spec fn view(&self) -> TransportErrorModel {
        match self {
            TransportError::StreamEnded => TransportErrorModel::StreamEnded,
            TransportError::Capacity(_) => TransportErrorModel::Capacity,
            TransportError::ConnectionClosed(c) => TransportErrorModel::ConnectionClosed {
                with_reason: c.is_some(),
            },
            TransportError::Protocol(m) => TransportErrorModel::Protocol(m@),
            TransportError::Other => TransportErrorModel::Other,
        }
    }
}

/// The protocol message that reports a connection dropped without a close
/// handshake.
pub open spec fn reset_message() -> Seq<char> {
    "Connection reset without closing handshake"@
}

/// How the worker handles a failure to read a frame.
#[derive(PartialEq, Eq, Structural, Clone, Copy, Debug)]
pub enum Disposition {
    /// The failure is transient: read the next frame.
    Continue,
    /// The session is exhausted: resume it if it can be, else terminate.
    ReconnectOrResume,
}

/// The failures that exhaust a session.
pub open spec fn exhausts_session(e: TransportErrorModel) -> bool {
    match e {
        TransportErrorModel::StreamEnded => true,
        TransportErrorModel::Capacity => false,
        TransportErrorModel::ConnectionClosed { with_reason } => with_reason,
        TransportErrorModel::Protocol(m) => m == reset_message(),
        TransportErrorModel::Other => false,
    }
}

pub open spec fn disposition_of(e: TransportErrorModel) -> Disposition {
    if exhausts_session(e) {
        Disposition::ReconnectOrResume
    } else {
        Disposition::Continue
    }
}

/// Classifies a failure to read a frame.
pub fn classify(error: &TransportError) -> (d: Disposition)
    ensures
        d == disposition_of(error@),
{
    match error {
        TransportError::StreamEnded => Disposition::ReconnectOrResume,
        TransportError::Capacity(_) => Disposition::Continue,
        TransportError::ConnectionClosed(Some(_)) => Disposition::ReconnectOrResume,
        TransportError::ConnectionClosed(None) => Disposition::Continue,
        TransportError::Protocol(message) => {
            let reset = "Connection reset without closing handshake".to_owned();
            proof {
                reveal_strlit("Connection reset without closing handshake");
            }
            if *message == reset {
                Disposition::ReconnectOrResume
            } else {
                Disposition::Continue
            }
        },
        TransportError::Other => Disposition::Continue,
    }
}

} // verus!
