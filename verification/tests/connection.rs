use ntex_h2::client::pool::{Client, ClientBuilder, ClientStat, ConnectStep};
use ntex_h2::client::stream::{Handled, InflightStorage, RecvPoll};
use ntex_h2::client::{simple, Scheme};
use ntex_h2::config::ServiceConfig;
use ntex_h2::connection::{Action, Connection, PingStep};
use ntex_h2::dispatcher::{DispatchItem, Dispatcher, Step, StopReason};
use ntex_h2::error::OperationError;
use ntex_h2::frame::{
    Data, Frame, GoAway, Headers, PseudoHeaders, Reason, Reset, Settings, StreamId, WindowUpdate,
};
use ntex_h2::message::{Message, MessageKind};
use ntex_h2::server::{self, Handshake};
use ntex_h2::stream::{Stream, StreamRef};
use ntex_http::HeaderMap;

const PREFACE: [u8; 24] = *b"PRI * HTTP/2.0\r\n\r\nSM\r\n\r\n";

fn pseudo() -> PseudoHeaders {
    PseudoHeaders {
        method: Some("GET".to_string()),
        scheme: Some("HTTPS".to_string()),
        authority: Some("localhost".to_string()),
        path: Some("/".to_string()),
        protocol: None,
        status: None,
    }
}

fn request(id: StreamId, eof: bool) -> Frame {
    Frame::Headers(Headers::new(id, pseudo(), HeaderMap::new(), eof))
}

fn reset(id: StreamId, reason: Reason) -> Frame {
    Frame::Reset(Reset::new(id, reason))
}

fn get_reset(frm: Frame) -> Reset {
    match frm {
        Frame::Reset(rst) => rst,
        _ => panic!("Expect Reset frame"),
    }
}

fn goaway(frm: Frame) -> GoAway {
    match frm {
        Frame::GoAway(f) => f,
        _ => panic!("Expect GoAway frame"),
    }
}

/// One side of a connection, with a service for its messages.
struct Host {
    disp: Dispatcher,
    service: fn(&mut Connection, &Message) -> Option<StreamRef>,
    /// Streams that the service still uses
    busy: Vec<StreamRef>,
    out: Vec<Frame>,
    ready: Vec<u64>,
    closed: bool,
}

impl Host {
    fn server(
        config: ServiceConfig,
        service: fn(&mut Connection, &Message) -> Option<StreamRef>,
    ) -> Host {
        let disp = match server::start::<()>(Handshake::Read(Ok(PREFACE.to_vec())), config) {
            Ok(disp) => disp,
            Err(_) => panic!("preface"),
        };
        let mut host =
            Host { disp, service, busy: vec![], out: vec![], ready: vec![], closed: false };
        host.feed(Frame::Settings(Settings::default()));
        // settings & window
        assert!(matches!(host.recv(), Some(Frame::Settings(s)) if !s.is_ack()));
        assert!(matches!(host.recv(), Some(Frame::WindowUpdate(_))));
        assert!(matches!(host.recv(), Some(Frame::Settings(s)) if s.is_ack()));
        host
    }

    fn client(config: ServiceConfig, scheme: Scheme) -> Host {
        let con = simple::connect(config, scheme, false);
        let mut host = Host {
            disp: Dispatcher::new(con),
            service: |_, _| None,
            busy: vec![],
            out: vec![],
            ready: vec![],
            closed: false,
        };
        host.flush();
        host
    }

    fn con(&mut self) -> &mut Connection {
        &mut self.disp.connection
    }

    fn flush(&mut self) {
        for action in self.disp.connection.take_actions() {
            match action {
                Action::Send(frm) => self.out.push(frm),
                Action::Close => self.closed = true,
                Action::Ready(waiter) => self.ready.push(waiter),
                _ => (),
            }
        }
    }

    fn recv(&mut self) -> Option<Frame> {
        self.flush();
        if self.out.is_empty() {
            None
        } else {
            Some(self.out.remove(0))
        }
    }

    fn publish(&mut self, msg: Message) {
        let stream = msg.stream();
        if let Some(stream) = (self.service)(&mut self.disp.connection, &msg) {
            self.busy.push(stream);
        }
        let step = self.disp.publish_done::<()>(stream, Ok(()));
        assert!(matches!(step, Step::Done));
    }

    fn step(&mut self, item: DispatchItem) {
        assert!(self.disp.connection.has_room());
        if let DispatchItem::Item(Frame::Data(data)) = &item {
            assert!(self.disp.connection.admits(data));
        }
        match self.disp.call::<()>(item) {
            Step::Done => (),
            Step::Reply(frm) => self.out.push(frm),
            Step::Publish(msg) => self.publish(msg),
            Step::StreamErrors(errs) => {
                for err in errs {
                    let msg = self.disp.stream_failed(err);
                    self.publish(msg);
                }
            }
            Step::Disconnect(messages, control) => {
                for msg in messages {
                    self.publish(msg);
                }
                if let Some(control) = control {
                    self.disp.control_done(Ok(control.ack()));
                }
            }
        }
        self.flush();
    }

    /// Hands over a frame as it comes over the wire.
    fn feed(&mut self, frm: Frame) {
        let mut buf: Vec<u8> = Vec::new();
        let mut codec = ntex_h2::codec::Codec::default();
        assert!(codec.encode(frm, &mut buf).is_ok());
        while !buf.is_empty() {
            match ntex_h2::codec::Codec::default().decode(&mut buf) {
                Ok(Some(frm)) => self.step(DispatchItem::Item(frm)),
                Ok(None) => (),
                Err(e) => panic!("{}", e.message()),
            }
        }
    }
}

/// Hands over everything that one side has to say to the other side.
fn pump(from: &mut Host, to: &mut Host) -> usize {
    let mut n = 0;
    while let Some(frm) = from.recv() {
        to.feed(frm);
        n += 1;
    }
    n
}

fn exchange(a: &mut Host, b: &mut Host) {
    while pump(a, b) + pump(b, a) > 0 {}
}

/// Answers at the end of a request; a stream stays in use until then.
fn respond(con: &mut Connection, msg: &Message) -> Option<StreamRef> {
    let stream = msg.stream();
    match msg.kind() {
        MessageKind::Headers { eof: false, .. } => Some(stream),
        MessageKind::Headers { eof: true, .. } | MessageKind::Eof(_) => {
            if stream.send_response(con, 200, HeaderMap::new(), false).is_ok() {
                assert!(matches!(stream.send_payload(con, b"test body".to_vec(), false), Ok(None)));
                assert!(matches!(stream.send_payload(con, vec![], true), Ok(None)));
            }
            None
        }
        _ => None,
    }
}

fn config() -> ServiceConfig {
    ServiceConfig::new().set_max_concurrent_streams(1)
}

fn send(client: &mut Host, eof: bool) -> StreamRef {
    assert!(client.con().check_error().is_ok());
    assert!(client.con().can_create_new_stream());
    match client.con().send_request(
        "localhost".to_string(),
        "GET".to_string(),
        "/".to_string(),
        HeaderMap::new(),
        eof,
    ) {
        Ok(stream) => stream,
        Err(_) => panic!("cannot send"),
    }
}

#[test]
fn test_goaway_on_overflow() {
    let mut io = Host::server(config(), respond);
    let id = StreamId::new(1);
    io.feed(request(id, false));

    let id = id.next_id().unwrap();
    io.feed(request(id, false));
    let res = get_reset(io.recv().unwrap());
    assert_eq!(res.reason(), Reason::REFUSED_STREAM);
    assert_eq!(res.stream_id(), id);

    let id = id.next_id().unwrap();
    io.feed(request(id, false));
    let res = goaway(io.recv().unwrap());
    assert_eq!(res.reason(), Reason::FLOW_CONTROL_ERROR);
    assert!(io.recv().is_none());
    assert!(io.closed);
}

#[test]
fn test_stream_cancel() {
    let mut io = Host::server(config(), |con, msg| {
        if let MessageKind::Eof(_) = msg.kind() {
            Stream(msg.stream()).release(con);
        }
        None
    });
    let id = StreamId::new(1);
    io.feed(request(id, false));
    assert!(io.recv().is_none());
    io.feed(reset(id, Reason::CANCEL));

    let res = get_reset(io.recv().unwrap());
    assert!(res.reason() == Reason::CANCEL);
}

#[test]
fn test_goaway_on_reset() {
    let mut io = Host::server(config(), respond);
    let mut id = StreamId::new(1);
    for _ in 0..5 {
        io.feed(request(id, true));
        id = id.next_id().unwrap();
        assert!(matches!(io.recv(), Some(Frame::Headers(_)))); // headers
        assert!(matches!(io.recv(), Some(Frame::Data(d)) if !d.is_end_stream())); // data
        assert!(matches!(io.recv(), Some(Frame::Data(d)) if d.is_end_stream())); // data eof
    }
    for _ in 0..4 {
        io.feed(request(id, false));
        io.feed(reset(id, Reason::NO_ERROR));
        id = id.next_id().unwrap();
        assert!(io.recv().is_some());
        assert!(!io.closed);
    }
    io.feed(request(id, false));
    io.feed(reset(id, Reason::NO_ERROR));

    let res = goaway(io.recv().unwrap());
    assert_eq!(res.reason(), Reason::FLOW_CONTROL_ERROR);
    assert!(io.recv().is_none());
    assert!(io.closed);
}

#[test]
fn test_goaway_on_reset2() {
    let mut io = Host::server(config(), respond);
    let mut id = StreamId::new(1);
    for _ in 0..5 {
        io.feed(request(id, true));
        id = id.next_id().unwrap();
        io.recv().unwrap(); // headers
        io.recv().unwrap(); // data
        io.recv().unwrap(); // data eof
    }
    for _ in 0..4 {
        io.feed(request(id, true));
        io.feed(reset(id, Reason::NO_ERROR));
        id = id.next_id().unwrap();
        io.recv().unwrap(); // headers
        io.recv().unwrap(); // data
        io.recv().unwrap(); // data eof
    }
    io.feed(request(id, true));
    io.feed(reset(id, Reason::NO_ERROR));
    io.recv().unwrap(); // headers
    io.recv().unwrap(); // data
    io.recv().unwrap(); // data eof

    let res = goaway(io.recv().unwrap());
    assert_eq!(res.reason(), Reason::FLOW_CONTROL_ERROR);
    assert!(io.recv().is_none());
}

#[test]
fn test_ping_timeout_on_idle() {
    let mut io = Host::server(config().set_ping_timeout(1), respond);
    assert_eq!(io.con().keepalive(), Some(1100));

    // ping & goaway
    io.con().ping_start();
    assert_eq!(io.con().ping(), PingStep::Sent);
    assert!(matches!(io.recv(), Some(Frame::Ping(p)) if !p.is_ack()));
    assert_eq!(io.con().ping(), PingStep::Timeout);
    io.step(DispatchItem::Stop(StopReason::KeepAliveTimeout));
    let res = goaway(io.recv().unwrap());
    assert_eq!(res.reason(), Reason::NO_ERROR);
    assert!(io.closed);
    assert!(io.con().is_closed());
    assert_eq!(io.con().ping(), PingStep::Stop);
}

#[test]
fn test_remote_stream_refused() {
    let mut srv = Host::server(ServiceConfig::new().set_ping_timeout(0), |con, msg| {
        msg.stream().reset(con, Reason::REFUSED_STREAM);
        None
    });
    let mut client = Host::client(ServiceConfig::new(), Scheme::Http);
    exchange(&mut client, &mut srv);
    let mut storage = InflightStorage::new();

    let stream = send(&mut client, false);
    let (snd, rcv) = storage.inflight(client.con(), Stream(stream));
    let frm = client.recv().unwrap();
    srv.feed(frm);
    let rst = srv.recv().unwrap();
    match client.disp.call::<()>(DispatchItem::Item(rst)) {
        Step::Publish(msg) => {
            let r = storage.handle(&mut client.disp.connection, msg);
            assert_eq!(r, Handled::Queued { eof: true });
        }
        _ => panic!("expected message"),
    }

    let res = snd.send_payload(client.con(), b"hello".to_vec(), false);
    assert!(matches!(
        res,
        Err(OperationError::RemoteReset(Reason::REFUSED_STREAM))
            | Err(OperationError::Stream(_))
            | Err(OperationError::Closed(_))
    ));

    match storage.poll_recv(client.con(), rcv.stream()) {
        RecvPoll::Message(msg) => assert!(matches!(msg.kind(), MessageKind::Eof(_))),
        _ => panic!("expected message"),
    }
    assert!(client.con().stream_list().is_empty());
}

fn reset_quietly(con: &mut Connection, msg: &Message) -> Option<StreamRef> {
    msg.stream().reset(con, Reason::NO_ERROR);
    None
}

#[test]
fn test_delay_reset_queue() {
    let config = ServiceConfig::new().set_ping_timeout(0).set_reset_stream_duration(1);
    let mut io = Host::server(config, reset_quietly);
    let id = StreamId::new(1);
    io.feed(request(id, false));

    // server resets stream
    let res = get_reset(io.recv().unwrap());
    assert_eq!(res.reason(), Reason::NO_ERROR);

    // server should keep reseted streams for some time
    io.feed(Frame::Data(Data::new(id, b"data".to_vec())));
    let res = get_reset(io.recv().unwrap());
    assert_eq!(res.reason(), Reason::STREAM_CLOSED);

    // reset queue cleared in 1 sec
    io.con().set_now(1_100);

    let id2 = id.next_id().unwrap();
    io.feed(request(id2, false));
    let res = get_reset(io.recv().unwrap());
    assert_eq!(res.reason(), Reason::NO_ERROR);

    // prev closed stream
    io.feed(Frame::Data(Data::new(id, b"data".to_vec())));
    let res = goaway(io.recv().unwrap());
    assert_eq!(res.reason(), Reason::PROTOCOL_ERROR);

    // SECOND connection
    let config = ServiceConfig::new().set_ping_timeout(0).set_reset_stream_duration(1);
    let mut io = Host::server(config, reset_quietly);
    io.feed(request(id, false));

    // server resets stream
    let res = get_reset(io.recv().unwrap());
    assert_eq!(res.reason(), Reason::NO_ERROR);

    // after server receives remote reset, any next frame cause protocol error
    io.feed(reset(id, Reason::NO_ERROR));
    io.feed(Frame::Data(Data::new(id, b"data".to_vec())));
    let res = goaway(io.recv().unwrap());
    assert_eq!(res.reason(), Reason::PROTOCOL_ERROR);
}

#[test]
fn reset_streams_are_forgotten_in_time() {
    let config = ServiceConfig::new().set_reset_stream_duration(1);
    let mut io = Host::server(config, reset_quietly);
    let id = StreamId::new(1);
    io.feed(request(id, false));
    get_reset(io.recv().unwrap());

    io.con().set_now(1_000);
    io.feed(Frame::Data(Data::new(id, b"data".to_vec())));
    assert_eq!(get_reset(io.recv().unwrap()).reason(), Reason::STREAM_CLOSED);

    io.con().set_now(1_001);
    io.feed(Frame::Data(Data::new(id, b"data".to_vec())));
    assert_eq!(goaway(io.recv().unwrap()).reason(), Reason::PROTOCOL_ERROR);
}

#[test]
fn test_max_concurrent_streams() {
    let mut srv = Host::server(config(), respond);
    let mut client = Host::client(ServiceConfig::new(), Scheme::Http);
    // a server opens with its settings
    let mut settings = Settings::default();
    settings.set_max_concurrent_streams(Some(1));
    client.feed(Frame::Settings(settings));
    exchange(&mut client, &mut srv);
    assert_eq!(client.con().max_streams(), Some(1));

    let mut storage = InflightStorage::new();
    let stream = send(&mut client, false);
    let (snd, rcv) = storage.inflight(client.con(), Stream(stream));
    assert!(!client.con().can_create_new_stream());
    assert!(client.con().active_streams() == 1);
    assert_eq!(snd.id(client.con()), rcv.id(client.con()));
    assert_eq!(snd.stream(), rcv.stream());

    assert!(matches!(client.con().poll_ready(7), Ok(false)));
    assert!(matches!(snd.send_payload(client.con(), vec![], true), Ok(None)));
    exchange(&mut client, &mut srv);
    assert_eq!(client.ready, vec![7]);
    assert!(client.con().can_create_new_stream());
    assert_eq!(client.con().active_streams(), 0);
    send(&mut client, false);
}

#[test]
fn test_max_concurrent_streams_reset() {
    let mut srv = Host::server(config(), respond);
    let mut client = Host::client(ServiceConfig::new(), Scheme::Http);
    let mut settings = Settings::default();
    settings.set_max_concurrent_streams(Some(1));
    client.feed(Frame::Settings(settings));
    exchange(&mut client, &mut srv);

    let stream = send(&mut client, false);
    assert!(!client.con().can_create_new_stream());
    for waiter in [1, 2, 3] {
        assert!(matches!(client.con().poll_ready(waiter), Ok(false)));
    }
    assert!(matches!(stream.send_payload(client.con(), b"chunk".to_vec(), false), Ok(None)));
    assert!(stream.reset(client.con(), Reason::NO_ERROR));
    client.flush();
    assert_eq!(client.ready, vec![1]);

    let second = send(&mut client, false);
    assert!(second.reset(client.con(), Reason::NO_ERROR));
    client.flush();
    assert_eq!(client.ready, vec![1, 2]);

    let third = send(&mut client, false);
    Stream(third).release(client.con());
    client.flush();
    assert_eq!(client.ready, vec![1, 2, 3]);
    assert!(client.con().can_create_new_stream());
}

fn pool(maxconn: usize) -> Client {
    ClientBuilder::new().maxconn(maxconn).scheme(Scheme::Https).build()
}

#[test]
fn test_max_concurrent_streams_pool() {
    let mut pool = pool(1);
    assert!(pool.is_ready(&vec![]));
    assert_eq!(pool.get_client(&vec![]).client, None);
    assert_eq!(pool.connect(0, 1), ConnectStep::Create);

    let mut srv = Host::server(config(), respond);
    let mut client = Host::client(ServiceConfig::new(), Scheme::Https);
    assert_eq!(pool.connected(Ok(10)), vec![]);
    let mut settings = Settings::default();
    settings.set_max_concurrent_streams(Some(1));
    client.feed(Frame::Settings(settings));
    exchange(&mut client, &mut srv);

    let stats = vec![ClientStat::of(client.con(), 0)];
    assert_eq!(pool.get_client(&stats).client, Some(10));
    let stream = send(&mut client, false);
    exchange(&mut client, &mut srv);
    let stats = vec![ClientStat::of(client.con(), 0)];
    assert!(!pool.is_ready(&stats));

    let picked = pool.get_client(&stats);
    assert_eq!((picked.client, picked.num), (None, 1));
    assert_eq!(pool.connect(picked.num, 2), ConnectStep::Wait);

    assert!(matches!(stream.send_payload(client.con(), vec![], true), Ok(None)));
    exchange(&mut client, &mut srv);
    assert_eq!(pool.notify(), Some(2));
    let stats = vec![ClientStat::of(client.con(), 0)];
    assert!(pool.is_ready(&stats));
    assert_eq!(pool.get_client(&stats).client, Some(10));
}

#[test]
fn test_max_concurrent_streams_pool2() {
    let mut pool = pool(2);
    assert!(pool.is_ready(&vec![]));
    assert_eq!(pool.connect(0, 1), ConnectStep::Create);
    assert_eq!(pool.connected(Ok(10)), vec![]);

    let mut srv = Host::server(config(), respond);
    let mut client = Host::client(ServiceConfig::new(), Scheme::Https);
    let mut settings = Settings::default();
    settings.set_max_concurrent_streams(Some(1));
    client.feed(Frame::Settings(settings));
    exchange(&mut client, &mut srv);
    send(&mut client, false);
    exchange(&mut client, &mut srv);

    let stats = vec![ClientStat::of(client.con(), 0)];
    assert!(pool.is_ready(&stats));
    let picked = pool.get_client(&stats);
    assert_eq!((picked.client, picked.num), (None, 1));
    assert_eq!(pool.connect(picked.num, 2), ConnectStep::Create);
    // nobody else may connect meanwhile
    assert_eq!(pool.connect(picked.num, 3), ConnectStep::Wait);
    assert_eq!(pool.connected(Ok(11)), vec![3]);
    assert_eq!(pool.stat_total_connections(), 2);
    assert_eq!(pool.stat_active_connections(), 2);
}

#[test]
fn window_updates_of_zero_are_refused() {
    let mut io = Host::server(config(), respond);
    io.step(DispatchItem::Item(Frame::WindowUpdate(WindowUpdate::new(StreamId::zero(), 0))));
    let res = goaway(io.recv().unwrap());
    assert_eq!(res.reason(), Reason::PROTOCOL_ERROR);
}
