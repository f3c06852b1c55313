//! The receiving side of the connection: which frames carry a payload, and
//! how a payload becomes JSON.

use vstd::prelude::*;
use async_tungstenite::tungstenite;
use crate::error::StreamingError;

verus! {

/// One frame as the connection delivers it.
#[derive(Debug)]
pub enum Frame {
    /// A text frame: the payload of the application.
    Text(String),
    /// A binary frame.
    Binary(Vec<u8>),
    /// A keepalive request of the transport.
    Ping(Vec<u8>),
    /// A keepalive answer of the transport.
    Pong(Vec<u8>),
    /// The peer is closing the connection.
    Close,
    /// A frame that the transport did not interpret.
    Raw,
}

/// What the receiver yields for one item of the raw stream: the text of a
/// text frame; nothing for the transport's own control frames; an error for
/// any other frame and for a failure of the connection.
pub open spec fn filtered(item: std::result::Result<Frame, tungstenite::Error>) -> Option<
    std::result::Result<String, StreamingError>,
> {
    match item {
        Ok(Frame::Text(t)) => Some(Ok(t)),
        Ok(Frame::Ping(_)) => None,
        Ok(Frame::Pong(_)) => None,
        Ok(Frame::Close) => None,
        Ok(m) => Some(Err(StreamingError::UnexpectedMessage(std::sync::Arc::new(m)))),
        Err(e) => Some(Err(StreamingError::WebSocket(std::sync::Arc::new(e)))),
    }
}

/// Sorts one item of the raw stream: payload, nothing, or error.
pub fn filter(item: std::result::Result<Frame, tungstenite::Error>) -> (r: Option<
    std::result::Result<String, StreamingError>,
>)
    ensures
        r == filtered(item),
{
    match item {
        Ok(Frame::Text(t)) => Some(Ok(t)),
        Ok(Frame::Ping(_)) => None,
        Ok(Frame::Pong(_)) => None,
        Ok(Frame::Close) => None,
        Ok(m) => Some(Err(StreamingError::unexpected(m))),
        Err(e) => Some(Err(StreamingError::from_websocket(e))),
    }
}

/// Whether a text is one JSON document, as `serde_json` reads it.
pub uninterp spec fn is_json(text: Seq<char>) -> bool;

/// `serde_json::from_str`, reading a whole text as one JSON value. It
/// succeeds exactly on the texts that are JSON; of the value and of the error
/// nothing is claimed.
#[verifier::external_body]
fn parse_json(text: &str) -> (r: std::result::Result<serde_json::Value, serde_json::Error>)
    ensures
        r.is_ok() == is_json(text@),
{
    serde_json::from_str::<serde_json::Value>(text)
}

/// The error with which a closed connection is reported:
/// `tungstenite::Error::ConnectionClosed`.
#[verifier::external_body]
fn connection_closed() -> tungstenite::Error {
    tungstenite::Error::ConnectionClosed
}

/// Decodes what the receiver yielded next. A payload that is JSON gives its
/// document; one that is not gives a JSON error; an error is passed on; and
/// the end of the stream is reported as a failure of the connection.
pub fn decode(next: Option<std::result::Result<String, StreamingError>>) -> (r: std::result::Result<
    serde_json::Value,
    StreamingError,
>)
    ensures
        match next {
            Some(Ok(t)) => if is_json(t@) {
                r is Ok
            } else {
                r matches Err(StreamingError::Json(_))
            },
            Some(Err(e)) => r == Err::<serde_json::Value, StreamingError>(e),
            None => r matches Err(StreamingError::WebSocket(_)),
        },
{
    match next {
        Some(Ok(t)) => decoded(parse_json(t.as_str())),
        Some(Err(e)) => Err(e),
        None => Err(StreamingError::from_websocket(connection_closed())),
    }
}

/// Turns the outcome of reading JSON into an outcome of the client: the
/// document as it is, a failure wrapped as a JSON error.
pub fn decoded(parsed: std::result::Result<serde_json::Value, serde_json::Error>) -> (r:
    std::result::Result<serde_json::Value, StreamingError>)
    ensures
        match parsed {
            Ok(v) => r == Ok::<serde_json::Value, StreamingError>(v),
            Err(e) => r matches Err(StreamingError::Json(a)) && *a == e,
        },
{
    match parsed {
        Ok(v) => Ok(v),
        Err(e) => Err(StreamingError::from_json(e)),
    }
}

} // verus!
