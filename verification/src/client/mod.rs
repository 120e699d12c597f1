//! Http2 client
use vstd::prelude::*;

pub mod laws;
pub mod pool;
pub mod simple;
pub mod stream;

pub use self::pool::{Client, ClientBuilder};
pub use self::stream::{RecvStream, SendStream};

use crate::error::{ConnectionError, OperationError};
use crate::frame::{Data, FrameError, Headers, StreamId};

verus! {

/// The scheme of a connection.
#[derive(Debug, Copy, Clone, PartialEq, Eq, Structural)]
pub enum Scheme {
    Http,
    Https,
}

impl Scheme {
    /// The connection runs over TLS.
    pub open spec fn secure(self) -> bool {
        self == Scheme::Https
    }
}

/// Errors which can occur when attempting to handle http2 client connection.
///
/// Errors of the transport are known by their signature.
#[derive(Debug, Copy, Clone)]
pub enum ClientError {
    /// Protocol error
    Protocol(ConnectionError),
    /// Operation error
    Operation(OperationError),
    /// Http/2 frame codec error
    Frame(FrameError),
    /// Handshake timeout
    HandshakeTimeout,
    /// Connect error
    Connect(&'static str),
    /// Peer disconnected
    Disconnected(&'static str),
}

impl ClientError {
    /// A short name of the error.
    pub open spec fn spec_signature(self) -> Seq<char> {
        match self {
            ClientError::Protocol(err) => err.spec_signature(),
            ClientError::Operation(err) => err.spec_signature(),
            ClientError::Connect(signature) => signature@,
            ClientError::Disconnected(signature) => signature@,
            ClientError::Frame(_) => "h2-client-Frame"@,
            ClientError::HandshakeTimeout => "h2-client-HandshakeTimeout"@,
        }
    }

    pub fn signature(&self) -> (r: &'static str)
        ensures
            r@ == self.spec_signature(),
    {
        match self {
            ClientError::Protocol(err) => err.signature(),
            ClientError::Operation(err) => err.signature(),
            ClientError::Connect(signature) => signature,
            ClientError::Disconnected(signature) => signature,
            ClientError::Frame(_) => "h2-client-Frame",
            ClientError::HandshakeTimeout => "h2-client-HandshakeTimeout",
        }
    }
}

impl From<ConnectionError> for ClientError {
    fn from(err: ConnectionError) -> (r: ClientError) {
        ClientError::Protocol(err)
    }
}

impl vstd::std_specs::convert::FromSpecImpl<ConnectionError> for ClientError {
    open spec fn obeys_from_spec() -> bool {
        true
    }

    open spec fn from_spec(err: ConnectionError) -> ClientError {
        ClientError::Protocol(err)
    }
}

impl From<OperationError> for ClientError {
    fn from(err: OperationError) -> (r: ClientError) {
        ClientError::Operation(err)
    }
}

impl vstd::std_specs::convert::FromSpecImpl<OperationError> for ClientError {
    open spec fn obeys_from_spec() -> bool {
        true
    }

    open spec fn from_spec(err: OperationError) -> ClientError {
        ClientError::Operation(err)
    }
}

impl From<FrameError> for ClientError {
    fn from(err: FrameError) -> (r: ClientError) {
        ClientError::Frame(err)
    }
}

impl vstd::std_specs::convert::FromSpecImpl<FrameError> for ClientError {
    open spec fn obeys_from_spec() -> bool {
        true
    }

    open spec fn from_spec(err: FrameError) -> ClientError {
        ClientError::Frame(err)
    }
}

/// Follows the requests of a client.
pub trait Observer {
    /// New request is prepared
    fn on_request(&mut self, id: StreamId, headers: &mut Headers);

    /// Bytes has been written to memory
    fn on_request_sent(&mut self, id: StreamId);

    /// Payload data has been written to memory
    fn on_request_payload(&mut self, id: StreamId, data: &Data);

    /// Response is received
    fn on_response(&mut self, id: StreamId, headers: &mut Headers);

    /// Payload data has been received
    fn on_response_payload(&mut self, id: StreamId, data: &Data);
}

} // verus!
