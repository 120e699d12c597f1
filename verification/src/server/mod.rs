//! HTTP/2 server services.
use std::io;

use vstd::prelude::*;

pub mod builder;
pub mod dispatcher;

pub use self::builder::ServerBuilder;

use crate::codec::Codec;
use crate::config::ServiceConfig;
use crate::connection::view::ConView;
use crate::connection::Connection;
use crate::consts;
use crate::dispatcher::{Dispatcher, DispatcherView};
use crate::frame::FrameError;
use crate::hpack::header::same_bytes;

verus! {

/// Errors that can occur while establishing or serving an HTTP/2 connection.
#[derive(Debug)]
pub enum ServerError<E> {
    /// Request handler error
    Service(E),
    /// HTTP/2 frame codec error.
    Frame(FrameError),
    /// Dispatcher error
    Dispatcher,
    /// Control service init error
    ControlServiceError,
    /// Publish service init error
    PublishServiceError,
    /// Request service initialization error.
    PublishService(String),
    /// Handshake timeout
    HandshakeTimeout,
    /// Peer disconnection.
    Disconnected(Option<io::Error>),
}

impl<E> From<io::Error> for ServerError<E> {
    fn from(e: io::Error) -> (r: ServerError<E>) {
        ServerError::Disconnected(Some(e))
    }
}

impl<E> vstd::std_specs::convert::FromSpecImpl<io::Error> for ServerError<E> {
    open spec fn obeys_from_spec() -> bool {
        true
    }

    open spec fn from_spec(e: io::Error) -> ServerError<E> {
        ServerError::Disconnected(Some(e))
    }
}

impl<E> From<FrameError> for ServerError<E> {
    fn from(e: FrameError) -> (r: ServerError<E>) {
        ServerError::Frame(e)
    }
}

impl<E> vstd::std_specs::convert::FromSpecImpl<FrameError> for ServerError<E> {
    open spec fn obeys_from_spec() -> bool {
        true
    }

    open spec fn from_spec(e: FrameError) -> ServerError<E> {
        ServerError::Frame(e)
    }
}

/// Checks the text that a client has opened a connection with.
pub fn check_preface(buf: &[u8]) -> (r: Result<(), FrameError>)
    ensures
        r == if buf@ == consts::preface() {
            Ok::<(), FrameError>(())
        } else {
            Err(FrameError::InvalidPreface)
        },
{
    if same_bytes(buf, "PRI * HTTP/2.0\r\n\r\nSM\r\n\r\n".as_bytes()) {
        Ok(())
    } else {
        Err(FrameError::InvalidPreface)
    }
}

/// What came of waiting for the preface of a client.
pub enum Handshake {
    /// The client has not sent it in time.
    TimedOut,
    /// What was read of the transport.
    Read(Result<Vec<u8>, io::Error>),
}

/// The dispatcher of a connection on which nothing has happened yet.
pub open spec fn is_fresh(d: DispatcherView, config: ServiceConfig) -> bool {
    &&& !d.disconnected
    &&& exists|codec: Codec|
        codec.is_new() && d.con == #[trigger] ConView::start(codec, config, true, true, false)
}

/// Starts to serve a client once its preface is there.
pub fn start<E>(handshake: Handshake, config: ServiceConfig) -> (r: Result<
    Dispatcher,
    ServerError<E>,
>)
    requires
        config.wf(),
    ensures
        match handshake {
            Handshake::TimedOut => r is Err && r->Err_0 is HandshakeTimeout,
            Handshake::Read(Err(e)) => r is Err && r->Err_0 == ServerError::<E>::Disconnected(
                Some(e),
            ),
            Handshake::Read(Ok(buf)) => if buf@ == consts::preface() {
                r is Ok && is_fresh(r->Ok_0@, config) && r->Ok_0@.con.wf()
            } else {
                r is Err && r->Err_0 == ServerError::<E>::Frame(FrameError::InvalidPreface)
            },
        },
{
    match handshake {
        Handshake::TimedOut => Err(ServerError::HandshakeTimeout),
        Handshake::Read(Err(e)) => Err(ServerError::from(e)),
        Handshake::Read(Ok(buf)) => match check_preface(buf.as_slice()) {
            Err(e) => Err(ServerError::from(e)),
            Ok(_) => {
                // create h2 codec
                let codec = Codec::default();
                let con = Connection::new(codec, config, true, true, false);
                Ok(Dispatcher::new(con))
            },
        },
    }
}

/// Lets a connection end with its streams while the service shuts down.
pub fn poll(dispatcher: &mut Dispatcher, is_shutdown: bool)
    requires
        old(dispatcher)@.con.wf(),
    ensures
        final(dispatcher)@ == if is_shutdown {
            old(dispatcher)@.with(old(dispatcher)@.con.disconnect_when_ready())
        } else {
            old(dispatcher)@
        },
        final(dispatcher)@.con.wf(),
{
    if is_shutdown {
        dispatcher.connection.disconnect_when_ready();
    }
}

} // verus!
