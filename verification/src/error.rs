//! Errors of the streaming client.

use vstd::prelude::*;
use std::sync::Arc;
use async_tungstenite::tungstenite;
use crate::channel::Frame;

verus! {

/// `Arc::clone` hands out one more handle to the value that `a` shares; the
/// value itself is not copied.
#[verifier::external_body]
pub(crate) fn share<T>(a: &Arc<T>) -> (r: Arc<T>)
    ensures
        r == *a,
{
    Arc::clone(a)
}

/// Possible errors from the WebSocket client. Each variant shares its cause,
/// so an error is handed to any number of waiters without copying it.
#[derive(Debug)]
pub enum StreamingError {
    /// The connection failed underneath.
    WebSocket(Arc<tungstenite::Error>),
    /// The server sent a frame that is neither text nor a control frame.
    UnexpectedMessage(Arc<Frame>),
    /// A frame did not encode or decode as JSON.
    Json(Arc<serde_json::Error>),
}

impl StreamingError {
    /// Another handle to this very error.
    pub fn duplicate(&self) -> (r: StreamingError)
        ensures
            r == *self,
    {
        match self {
            StreamingError::WebSocket(e) => StreamingError::WebSocket(share(e)),
            StreamingError::UnexpectedMessage(m) => StreamingError::UnexpectedMessage(share(m)),
            StreamingError::Json(e) => StreamingError::Json(share(e)),
        }
    }

    /// Wraps a failure of the connection.
    pub fn from_websocket(err: tungstenite::Error) -> (r: StreamingError)
        ensures
            r matches StreamingError::WebSocket(e) && *e == err,
    {
        StreamingError::WebSocket(Arc::new(err))
    }

    /// Wraps a failure to encode or decode JSON.
    pub fn from_json(err: serde_json::Error) -> (r: StreamingError)
        ensures
            r matches StreamingError::Json(e) && *e == err,
    {
        StreamingError::Json(Arc::new(err))
    }

    /// Wraps a frame that should not have come.
    pub fn unexpected(frame: Frame) -> (r: StreamingError)
        ensures
            r matches StreamingError::UnexpectedMessage(m) && *m == frame,
    {
        StreamingError::UnexpectedMessage(Arc::new(frame))
    }
}

impl From<tungstenite::Error> for StreamingError {
    fn from(err: tungstenite::Error) -> (r: StreamingError)
        ensures
            r matches StreamingError::WebSocket(e) && *e == err,
    {
        StreamingError::from_websocket(err)
    }
}

impl vstd::std_specs::convert::FromSpecImpl<tungstenite::Error> for StreamingError {
    open spec fn obeys_from_spec() -> bool {
        true
    }

    open spec fn from_spec(err: tungstenite::Error) -> StreamingError {
        StreamingError::WebSocket(Arc::new(err))
    }
}

impl From<serde_json::Error> for StreamingError {
    fn from(err: serde_json::Error) -> (r: StreamingError)
        ensures
            r matches StreamingError::Json(e) && *e == err,
    {
        StreamingError::from_json(err)
    }
}

impl vstd::std_specs::convert::FromSpecImpl<serde_json::Error> for StreamingError {
    open spec fn obeys_from_spec() -> bool {
        true
    }

    open spec fn from_spec(err: serde_json::Error) -> StreamingError {
        StreamingError::Json(Arc::new(err))
    }
}

} // verus!
