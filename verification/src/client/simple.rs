//! Client for one HTTP/2 connection.
use ntex_http::HeaderMap;
use vstd::prelude::*;

use crate::client::stream::{self, InflightStorage, InflightView, RecvStream, SendStream};
use crate::client::Scheme;
use crate::codec::Codec;
use crate::config::ServiceConfig;
use crate::connection::view::ConView;
use crate::connection::{laws, Connection};
use crate::error::OperationError;
use crate::http;
use crate::stream::{Stream, StreamRef};

verus! {

/// The characters of client identifiers.
pub open spec fn id_alphabet() -> Seq<u8> {
    Seq::new(
        32,
        |i: int|
            if i < 26 {
                (0x61 + i) as u8
            } else {
                (0x32 + i - 26) as u8
            },
    )
}

/// A character of client identifiers.
fn id_char(n: usize) -> (r: u8)
    requires
        n < 32,
    ensures
        r == id_alphabet()[n as int],
        r < 0x80,
{
    if n < 26 {
        0x61 + n as u8
    } else {
        0x32 + (n - 26) as u8
    }
}

/// The identifier that lots stand for.
pub open spec fn id_of(lots: Seq<usize>) -> Seq<u8> {
    lots.map_values(|n: usize| id_alphabet()[n as int])
}

/// `nanorand::Rng::generate_range` of `nanorand::tls_rng`: some number below `n`.
/// Which one is left to chance.
#[verifier::external_body]
fn tls_random_below(n: usize) -> (r: usize)
    requires
        n > 0,
    ensures
        r < n,
{
    nanorand::Rng::generate_range(&mut nanorand::tls_rng(), ..n)
}

/// The identifier that lots stand for.
pub fn id_from(lots: &Vec<usize>) -> (r: String)
    requires
        forall|i: int| 0 <= i < lots@.len() ==> #[trigger] lots@[i] < 32,
    ensures
        http::text_bytes(r@) == id_of(lots@),
{
    let mut id: Vec<u8> = Vec::new();
    let mut i: usize = 0;
    while i < lots.len()
        invariant
            i <= lots@.len(),
            forall|k: int| 0 <= k < lots@.len() ==> #[trigger] lots@[k] < 32,
            id@ =~= id_of(lots@.take(i as int)),
            forall|k: int| 0 <= k < id@.len() ==> #[trigger] id@[k] < 0x80,
        decreases lots@.len() - i,
    {
        let c: u8 = id_char(lots[i]);
        id.push(c);
        assert(id_of(lots@.take(i + 1)) =~= id_of(lots@.take(i as int)).push(c));
        i = i + 1;
    }
    assert(lots@.take(i as int) =~= lots@);
    proof {
        crate::hpack::header::ascii_utf8(id@);
    }
    match http::text_from_bytes(id.as_slice()) {
        Some(s) => s,
        None => String::new(),
    }
}

/// The identifier of a client: 16 characters, each of them drawn by lot.
pub open spec fn is_id(id: Seq<char>) -> bool {
    exists|lots: Seq<usize>|
        lots.len() == 16 && (forall|i: int| 0 <= i < 16 ==> #[trigger] lots[i] < 32)
            && http::text_bytes(id) == #[trigger] id_of(lots)
}

/// A new identifier of a client.
pub fn gen_id() -> (r: String)
    ensures
        is_id(r@),
{
    let mut lots: Vec<usize> = Vec::new();
    while lots.len() < 16
        invariant
            lots@.len() <= 16,
            forall|i: int| 0 <= i < lots@.len() ==> #[trigger] lots@[i] < 32,
        decreases 16 - lots@.len(),
    {
        lots.push(tls_random_below(32));
    }
    id_from(&lots)
}

/// Starts a connection over an established transport.
pub fn connect(config: ServiceConfig, scheme: Scheme, skip_unknown_streams: bool) -> (r: Connection)
    requires
        config.wf(),
    ensures
        exists|codec: Codec|
            codec.is_new() && r@ == #[trigger] ConView::start(
                codec,
                config,
                false,
                scheme.secure(),
                skip_unknown_streams,
            ),
        r@.wf(),
{
    let codec = Codec::default();
    let secure: bool = match scheme {
        Scheme::Https => true,
        Scheme::Http => false,
    };
    let con = Connection::new(codec, config, false, secure, skip_unknown_streams);
    assert(secure == scheme.secure());
    assert(con@ == ConView::start(codec, config, false, scheme.secure(), skip_unknown_streams));
    con
}

/// Client for HTTP/2 connection.
#[derive(Debug)]
pub struct SimpleClient {
    /// The generated client identifier
    pub id: String,
    /// The authority used for requests
    pub authority: String,
}

/// Reserved stream of an HTTP/2 client connection.
#[derive(Debug)]
pub struct StreamReservation;

/// Graceful shutdown of a client connection.
#[derive(Debug)]
pub struct ClientDisconnect;

/// What became of a request: where it was sent, its stream is in use and its
/// halves belong to the caller.
pub open spec fn sent(
    request: (ConView, Result<StreamRef, OperationError>),
    before: Map<u32, InflightView>,
    con: ConView,
    storage: Map<u32, InflightView>,
    r: Result<(SendStream, RecvStream), OperationError>,
) -> bool {
    match request {
        (next, Ok(s)) => {
            &&& r == Ok::<(SendStream, RecvStream), OperationError>((SendStream(s), RecvStream(s)))
            &&& con == stream::halved(next, s)
            &&& storage == before.insert(
                next.slot(s).id.0,
                InflightView { stream: s, messages: Seq::empty() },
            )
        },
        (next, Err(e)) => {
            &&& r == Err::<(SendStream, RecvStream), OperationError>(e)
            &&& con == next
            &&& storage == before
        },
    }
}

impl SimpleClient {
    /// A client with an identifier of its own.
    pub fn new(authority: String) -> (r: SimpleClient)
        ensures
            r.authority == authority,
            is_id(r.id@),
    {
        SimpleClient { id: gen_id(), authority }
    }

    /// Whether a request can be sent now, or has to wait for a new stream.
    pub fn can_send(&self, con: &Connection) -> (r: Result<bool, OperationError>)
        requires
            con@.wf(),
        ensures
            r == match con@.request_error() {
                Some(e) => Err::<bool, OperationError>(e),
                None => Ok(con@.can_create()),
            },
    {
        match con.check_error_with_disconnect() {
            Err(e) => Err(e),
            Ok(_) => Ok(con.can_create_new_stream()),
        }
    }

    /// Opens a stream and sends request headers to the peer, unless the connection is
    /// failed or disconnecting.
    pub fn send(
        &self,
        con: &mut Connection,
        storage: &mut InflightStorage,
        method: String,
        path: String,
        headers: HeaderMap,
        eof: bool,
    ) -> (r: Result<(SendStream, RecvStream), OperationError>)
        requires
            old(con)@.wf(),
            old(con)@.request_error() is None ==> old(con)@.can_create()
                && old(con)@.state.active_local_streams < u32::MAX,
        ensures
            sent(
                old(con)@.request(
                    self.authority@,
                    method@,
                    path@,
                    http::header_fields(headers),
                    eof,
                ),
                old(storage)@,
                final(con)@,
                final(storage)@,
                r,
            ),
            final(con)@.wf(),
    {
        match con.send_request(self.authority.clone(), method, path, headers, eof) {
            Ok(stream) => Ok(storage.inflight(con, Stream(stream))),
            Err(e) => Err(e),
        }
    }

    /// The number of active streams that this side has opened.
    ///
    /// A stream is active from `send` until both of its sides are closed or it is
    /// reset.
    pub fn active_streams(&self, con: &Connection) -> (r: u32)
        requires
            con@.wf(),
        ensures
            r == con@.state.active_local_streams,
            con@.state.error is None ==> r == laws::open_requests(con@)
                + con@.state.reserved_streams,
    {
        con.active_streams()
    }

    /// The peer's maximum concurrent stream count, if known.
    pub fn max_streams(&self, con: &Connection) -> (r: Option<u32>)
        ensures
            r == con@.state.local_max_concurrent_streams,
    {
        con.max_streams()
    }

    /// Reserves a stream for a later request.
    ///
    /// The reserved stream is counted by `active_streams` until the reservation is
    /// given up or the request's stream is closed. There is none if the peer's
    /// concurrent stream limit is reached, or the connection is failed or
    /// disconnecting.
    ///
    /// Graceful disconnect waits for outstanding reservations, a reserved stream
    /// can be opened after `close` is called.
    pub fn reserve(&self, con: &mut Connection) -> (r: Option<StreamReservation>)
        requires
            old(con)@.wf(),
            old(con)@.state.active_local_streams < u32::MAX,
        ensures
            match old(con)@.reserve() {
                Some(next) => r is Some && final(con)@ == next,
                None => r is None && final(con)@ == old(con)@,
            },
            final(con)@.wf(),
    {
        if con.reserve_stream() {
            Some(StreamReservation)
        } else {
            None
        }
    }

    /// Returns whether the connection can open another stream.
    ///
    /// Readiness depends on the active stream count and the peer's concurrency
    /// setting.
    pub fn is_ready(&self, con: &Connection) -> (r: bool)
        ensures
            r == con@.can_create(),
    {
        con.can_create_new_stream()
    }

    /// Starts graceful connection shutdown.
    pub fn close(&self, con: &mut Connection)
        requires
            old(con)@.wf(),
        ensures
            final(con)@ == old(con)@.disconnect_when_ready(),
            final(con)@.wf(),
    {
        con.disconnect_when_ready();
    }

    /// Closes the connection immediately.
    pub fn force_close(&self, con: &mut Connection)
        requires
            old(con)@.wf(),
        ensures
            final(con)@ == old(con)@.close(),
            final(con)@.wf(),
    {
        con.close();
    }

    /// Starts graceful shutdown.
    pub fn disconnect(&self, con: &mut Connection) -> (r: ClientDisconnect)
        requires
            old(con)@.wf(),
        ensures
            final(con)@ == old(con)@.disconnect_when_ready(),
            final(con)@.wf(),
    {
        con.disconnect_when_ready();
        ClientDisconnect
    }

    /// Gives the client up: its connection ends with its streams.
    pub fn release(self, con: &mut Connection)
        requires
            old(con)@.wf(),
        ensures
            final(con)@ == old(con)@.disconnect_when_ready(),
            final(con)@.wf(),
    {
        con.disconnect_when_ready();
    }
}

impl StreamReservation {
    /// Opens the reserved stream and sends request headers to the peer. Where
    /// that is not possible, the reservation is given back.
    pub fn send(
        self,
        client: &SimpleClient,
        con: &mut Connection,
        storage: &mut InflightStorage,
        method: String,
        path: String,
        headers: HeaderMap,
        eof: bool,
    ) -> (r: Result<(SendStream, RecvStream), OperationError>)
        requires
            old(con)@.wf(),
            old(con)@.state.reserved_streams > 0,
        ensures
            ({
                let request = old(con)@.reserved_request(
                    client.authority@,
                    method@,
                    path@,
                    http::header_fields(headers),
                    eof,
                );
                let end = match request.1 {
                    Ok(_) => request,
                    Err(_) => (request.0.release_reserved(), request.1),
                };
                sent(end, old(storage)@, final(con)@, final(storage)@, r)
            }),
            final(con)@.wf(),
    {
        match con.send_reserved_request(client.authority.clone(), method, path, headers, eof) {
            Ok(stream) => Ok(storage.inflight(con, Stream(stream))),
            Err(e) => {
                con.release_reserved_stream();
                Err(e)
            },
        }
    }

    /// Gives the reservation back.
    pub fn release(self, con: &mut Connection)
        requires
            old(con)@.wf(),
            old(con)@.state.reserved_streams > 0,
        ensures
            final(con)@ == old(con)@.release_reserved(),
            final(con)@.wf(),
    {
        con.release_reserved_stream();
    }
}

impl ClientDisconnect {
    /// Whether the shutdown is done, with its result.
    ///
    /// It is done when the transport is closed; when the time is up, the connection
    /// is closed at once.
    pub fn poll(&self, con: &mut Connection, disconnected: bool, elapsed: bool) -> (r: Option<
        Result<(), OperationError>,
    >)
        requires
            old(con)@.wf(),
        ensures
            if disconnected {
                &&& r == Some(
                    match old(con)@.request_error() {
                        Some(e) => Err::<(), OperationError>(e),
                        None => Ok(()),
                    },
                )
                &&& final(con)@ == old(con)@
            } else if elapsed {
                &&& r == Some(Err::<(), OperationError>(OperationError::Disconnected))
                &&& final(con)@ == old(con)@.close()
            } else {
                r is None && final(con)@ == old(con)@
            },
            final(con)@.wf(),
    {
        if disconnected {
            Some(con.check_error_with_disconnect())
        } else if elapsed {
            con.close();
            Some(Err(OperationError::Disconnected))
        } else {
            None
        }
    }

    /// Gives the shutdown up: the connection is closed at once.
    pub fn release(self, con: &mut Connection)
        requires
            old(con)@.wf(),
        ensures
            final(con)@ == old(con)@.close(),
            final(con)@.wf(),
    {
        con.close();
    }
}

} // verus!
