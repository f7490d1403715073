//! Errors of the packet session with one device.
use vstd::prelude::*;
use crate::infrastructure::protocol::RawPacket;

verus! {

/// Errors of a device session. Each carries the text of the underlying
/// error.
#[derive(Debug)]
pub enum SessionError {
    ReceiveError(String),
    SendError(String),
    IoError(String),
}

/// The text of a session error.
pub open spec fn session_error_message(e: SessionError) -> Seq<char> {
    match e {
        SessionError::ReceiveError(s) => "Failed to receive packet: "@ + s@,
        SessionError::SendError(s) => "Failed to send packet: "@ + s@,
        SessionError::IoError(s) => "I/O error: "@ + s@,
    }
}

impl SessionError {
    /// The text of the error.
    pub fn message(&self) -> (m: String)
        ensures
            m@ == session_error_message(*self),
    {
        let (mut m, s) = match self {
            SessionError::ReceiveError(s) => ("Failed to receive packet: ".to_owned(), s),
            SessionError::SendError(s) => ("Failed to send packet: ".to_owned(), s),
            SessionError::IoError(s) => ("I/O error: ".to_owned(), s),
        };
        m.append(s.as_str());
        m
    }
}

/// What a receive gives the caller: the next packet, `None` once the
/// stream has closed, or a receive error carrying the decoder's error text.
pub fn receive_result(next: Option<Result<RawPacket, String>>) -> (r: Result<
    Option<RawPacket>,
    SessionError,
>)
    ensures
        next matches Some(Ok(p)) ==> r == Ok::<Option<RawPacket>, SessionError>(Some(p)),
        next is None ==> r == Ok::<Option<RawPacket>, SessionError>(None),
        next matches Some(Err(e)) ==> r == Err::<Option<RawPacket>, SessionError>(
            SessionError::ReceiveError(e),
        ),
{
    match next {
        Some(Ok(p)) => Ok(Some(p)),
        Some(Err(e)) => Err(SessionError::ReceiveError(e)),
        None => Ok(None),
    }
}

} // verus!
