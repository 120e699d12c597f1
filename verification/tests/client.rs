use ntex_h2::client::pool::{Client, ClientBuilder, ClientStat, ConnectStep};
use ntex_h2::client::stream::{Handled, InflightStorage, RecvPoll};
use ntex_h2::client::simple::{self, SimpleClient};
use ntex_h2::client::{ClientError, Scheme};
use ntex_h2::config::ServiceConfig;
use ntex_h2::connection::{Action, Connection};
use ntex_h2::error::{ConnectionError, OperationError};
use ntex_h2::frame::{
    Data, Frame, FrameError, Headers, PseudoHeaders, Reason, Settings, StreamId,
};
use ntex_h2::message::MessageKind;
use ntex_h2::stream::{Stream, StreamRef};
use ntex_http::HeaderMap;

fn client() -> Connection {
    let mut con = simple::connect(ServiceConfig::new(), Scheme::Http, false);
    assert!(con.recv_settings(Settings::default()).is_ok());
    con.take_actions();
    con
}

fn send(con: &mut Connection, eof: bool) -> StreamRef {
    con.send_request(
        "localhost".to_string(),
        "POST".to_string(),
        "/a".to_string(),
        HeaderMap::new(),
        eof,
    )
    .unwrap()
}

fn response(id: u32) -> Headers {
    Headers::new(StreamId::new(id), PseudoHeaders::response(200), HeaderMap::new(), false)
}

#[test]
fn clients_open_with_preface_settings_and_window() {
    let mut con = simple::connect(ServiceConfig::new(), Scheme::Https, false);
    match &con.take_actions()[..] {
        [Action::Preface, Action::Send(Frame::Settings(s)), Action::Send(Frame::WindowUpdate(u))] =>
        {
            assert!(!s.is_ack());
            assert_eq!(u.stream_id(), StreamId::zero());
            assert_eq!(u.size_increment(), 1_048_576 - 65_535);
        }
        _ => panic!("unexpected actions"),
    }
}

#[test]
fn messages_come_in_order() {
    let mut con = client();
    let mut storage = InflightStorage::new();
    let stream = send(&mut con, true);
    let (_snd, rcv) = storage.inflight(&mut con, Stream(stream));
    assert!(matches!(storage.poll_recv(&con, stream), RecvPoll::Wait));

    let msg = con.recv_headers(response(1)).unwrap().unwrap();
    assert_eq!(storage.handle(&mut con, msg), Handled::Queued { eof: false });
    let msg = con.recv_data(Data::new(StreamId::new(1), b"one".to_vec())).unwrap().unwrap();
    assert_eq!(storage.handle(&mut con, msg), Handled::Queued { eof: false });
    let mut last = Data::new(StreamId::new(1), b"two".to_vec());
    last.set_end_stream();
    let msg = con.recv_data(last).unwrap().unwrap();
    assert_eq!(storage.handle(&mut con, msg), Handled::Queued { eof: true });

    match storage.poll_recv(&con, rcv.stream()) {
        RecvPoll::Message(msg) => match msg.kind() {
            MessageKind::Headers { pseudo, eof, .. } => {
                assert_eq!(pseudo.status, Some(200));
                assert!(!eof);
            }
            _ => panic!("expected headers"),
        },
        _ => panic!("expected message"),
    }
    match storage.poll_recv(&con, rcv.stream()) {
        RecvPoll::Message(msg) => match msg.kind {
            MessageKind::Data(data, cap) => {
                assert_eq!(data, b"one".to_vec());
                assert_eq!(cap.size(), 3);
                cap.release(&mut con);
            }
            _ => panic!("expected data"),
        },
        _ => panic!("expected message"),
    }
    assert!(matches!(storage.poll_recv(&con, rcv.stream()), RecvPoll::Message(_)));
    assert!(matches!(storage.poll_recv(&con, rcv.stream()), RecvPoll::End));
}

#[test]
fn receivers_may_be_given_up() {
    let mut con = client();
    let mut storage = InflightStorage::new();
    let stream = send(&mut con, false);
    let (snd, rcv) = storage.inflight(&mut con, Stream(stream));
    let mut hdrs = response(1);
    hdrs.set_end_stream();
    let msg = con.recv_headers(hdrs).unwrap().unwrap();
    assert_eq!(storage.handle(&mut con, msg), Handled::Queued { eof: true });
    con.take_actions();
    rcv.release(&mut con, &mut storage);
    assert!(con.take_actions().is_empty());
    assert!(matches!(storage.poll_recv(&con, stream), RecvPoll::End));
    // payload can still be sent
    assert!(matches!(snd.send_payload(&mut con, b"data".to_vec(), false), Ok(None)));
    con.take_actions();
    snd.release(&mut con);
    match &con.take_actions()[..] {
        [Action::Send(Frame::Reset(r)), ..] => assert_eq!(r.reason(), Reason::CANCEL),
        _ => panic!("expected reset"),
    }
}

#[test]
fn receivers_cancel_what_they_have_not_got() {
    let mut con = client();
    let mut storage = InflightStorage::new();
    let stream = send(&mut con, true);
    let (_snd, rcv) = storage.inflight(&mut con, Stream(stream));
    con.take_actions();
    rcv.release(&mut con, &mut storage);
    match &con.take_actions()[..] {
        [Action::Send(Frame::Reset(r)), ..] => assert_eq!(r.reason(), Reason::CANCEL),
        _ => panic!("expected reset"),
    }
}

#[test]
fn connections_may_end_with_their_stream() {
    let mut con = client();
    let mut storage = InflightStorage::new();
    let stream = send(&mut con, false);
    let (snd, _rcv) = storage.inflight(&mut con, Stream(stream));
    snd.disconnect_on_drop(&mut con);
    assert!(snd.stream().is_disconnect_on_drop(&con));
    snd.release(&mut con);
    assert!(con.is_closed());
}

#[test]
fn shutdown_waits_for_the_transport() {
    let client = SimpleClient::new("localhost".to_string());
    let mut con = self::client();
    let mut storage = InflightStorage::new();
    let (snd, _rcv) = client
        .send(&mut con, &mut storage, "GET".into(), "/".into(), HeaderMap::new(), false)
        .unwrap();
    let disconnect = client.disconnect(&mut con);
    assert!(con.is_disconnecting());
    assert_eq!(client.can_send(&con), Err(OperationError::Disconnecting));
    assert_eq!(disconnect.poll(&mut con, false, false), None);
    assert!(!con.is_closed());
    snd.release(&mut con);
    assert!(con.is_closed());
    assert_eq!(
        disconnect.poll(&mut con, true, false),
        Some(Err(OperationError::Disconnecting))
    );

    let mut con = self::client();
    send(&mut con, false);
    let disconnect = client.disconnect(&mut con);
    assert_eq!(
        disconnect.poll(&mut con, false, true),
        Some(Err(OperationError::Disconnected))
    );
    assert!(con.is_closed());
}

#[test]
fn identifiers_are_made_of_lots() {
    assert_eq!(simple::id_from(&vec![0, 25, 26, 31]), "az27");
    let id = simple::gen_id();
    assert_eq!(id.len(), 16);
    assert!(id.bytes().all(|b| b.is_ascii_lowercase() || (b'2'..=b'7').contains(&b)));
    assert_ne!(id, simple::gen_id());
}

#[test]
fn reservations_are_used_once() {
    let client = SimpleClient::new("localhost".to_string());
    let mut con = self::client();
    let mut storage = InflightStorage::new();
    assert_eq!(client.can_send(&con), Ok(true));
    let first = client.reserve(&mut con).unwrap();
    let second = client.reserve(&mut con).unwrap();
    assert_eq!(con.active_streams(), 2);
    // a reserved stream can be opened while the connection waits to be closed
    client.close(&mut con);
    assert!(client.reserve(&mut con).is_none());
    let (snd, rcv) = first
        .send(&client, &mut con, &mut storage, "GET".into(), "/".into(), HeaderMap::new(), true)
        .unwrap();
    assert_eq!(snd.id(&con), StreamId::new(1));
    rcv.release(&mut con, &mut storage);
    assert!(!con.is_closed());
    second.release(&mut con);
    assert_eq!(con.active_streams(), 0);
    assert!(con.is_closed());
}

fn stat(active: u32, max: Option<u32>) -> ClientStat {
    ClientStat {
        closed: false,
        disconnecting: false,
        age: 0,
        max_streams: max,
        active_streams: active,
        ready: match max {
            Some(max) => active < max,
            None => true,
        },
    }
}

fn pool(keys: &[u64], builder: ClientBuilder) -> Client {
    let mut pool = builder.build();
    for key in keys {
        assert_eq!(pool.connect(0, 0), ConnectStep::Create);
        assert!(pool.connected(Ok(*key)).is_empty());
    }
    pool
}

#[test]
fn relaxed_connections_come_first() {
    let mut pool = pool(&[1, 2, 3], ClientBuilder::new().maxconn(3));
    let stats = vec![stat(6, Some(10)), stat(5, Some(10)), stat(0, Some(10))];
    let picked = pool.choose_client(&stats, 1);
    assert_eq!((picked.client, picked.num), (Some(2), 3));
    assert_eq!(pool.get_client(&stats).client, Some(2));
}

#[test]
fn busy_connections_are_drawn_by_lot() {
    let mut pool = pool(&[1, 2, 3], ClientBuilder::new().maxconn(3));
    let stats = vec![stat(6, Some(10)), stat(10, Some(10)), stat(9, Some(10))];
    assert_eq!(pool.choose_client(&stats, 0).client, Some(1));
    assert_eq!(pool.choose_client(&stats, 1).client, Some(3));
    let mut drawn = [false; 4];
    for _ in 0..200 {
        drawn[pool.get_client(&stats).client.unwrap() as usize] = true;
    }
    assert_eq!(drawn, [false, true, false, true]);
    let full = vec![stat(10, Some(10)), stat(10, Some(10)), stat(10, Some(10))];
    assert_eq!(pool.get_client(&full).client, None);
    assert!(!pool.is_ready(&full));
}

#[test]
fn streams_per_connection_are_limited() {
    let mut limited = pool(&[1, 2], ClientBuilder::new().maxconn(2).max_streams(4));
    // the limit of the pool is below that of the peer
    let stats = vec![stat(3, Some(100)), stat(2, Some(100))];
    assert_eq!(limited.get_client(&stats).client, Some(2));
    let stats = vec![stat(3, Some(100)), stat(4, Some(100))];
    assert_eq!(limited.get_client(&stats).client, Some(1));
    let stats = vec![stat(4, Some(100)), stat(4, Some(100))];
    assert_eq!(limited.get_client(&stats).client, None);
    assert!(!limited.is_ready(&stats));
    // the limit of the peer is used
    let mut unlimited = pool(&[1, 2], ClientBuilder::new().maxconn(2).max_streams(0));
    let stats = vec![stat(60, Some(100)), stat(50, Some(100))];
    assert_eq!(unlimited.get_client(&stats).client, Some(2));
    let stats = vec![stat(100, Some(100)), stat(99, Some(100))];
    assert_eq!(unlimited.get_client(&stats).client, Some(2));
}

#[test]
fn closed_connections_leave_the_pool() {
    let mut pool = pool(&[1, 2, 3], ClientBuilder::new().maxconn(3));
    let mut stats = vec![stat(0, None), stat(0, None), stat(0, None)];
    stats[0].closed = true;
    stats[1].disconnecting = true;
    let picked = pool.get_client(&stats);
    assert_eq!((picked.client, picked.num), (Some(3), 1));
    assert_eq!(picked.leaving, vec![2]);
    assert_eq!(pool.stat_active_connections(), 1);
    assert_eq!(pool.stat_total_connections(), 3);
}

#[test]
fn connections_leave_with_their_lifetime() {
    let mut pool = pool(&[1, 2], ClientBuilder::new().maxconn(2).lifetime(60));
    let mut stats = vec![stat(0, None), stat(0, None)];
    stats[0].age = 60;
    stats[1].age = 59;
    let picked = pool.get_client(&stats);
    assert_eq!((picked.client, picked.num), (Some(2), 1));
    assert_eq!(picked.leaving, vec![1]);
}

#[test]
fn connect_errors_wake_the_waiters() {
    let mut pool = ClientBuilder::new().maxconn(1).build();
    assert_eq!(pool.connect(0, 1), ConnectStep::Create);
    assert_eq!(pool.connect(0, 2), ConnectStep::Wait);
    pool.wait(3);
    pool.cancel(2);
    assert_eq!(pool.connected(Err(())), vec![3]);
    assert_eq!(pool.stat_connect_errors(), 1);
    assert_eq!(pool.notify(), None);
}

#[test]
fn minimum_of_connections() {
    let mut pool = pool(&[1], ClientBuilder::new().minconn(2).maxconn(4));
    let stats = vec![stat(0, None)];
    assert_eq!(pool.get_client(&stats).client, None);
    assert_eq!(pool.connect(1, 7), ConnectStep::Create);
}

#[test]
fn client_errors_have_signatures() {
    let err = ClientError::from(ConnectionError::StreamResetsLimit);
    assert_eq!(err.signature(), "h2-conn-StreamResetsLimit");
    let err = ClientError::from(OperationError::Disconnecting);
    assert_eq!(err.signature(), "h2-oper-Disconnecting");
    let err = ClientError::from(FrameError::InvalidPreface);
    assert_eq!(err.signature(), "h2-client-Frame");
    assert_eq!(ClientError::HandshakeTimeout.signature(), "h2-client-HandshakeTimeout");
    assert_eq!(ClientError::Connect("c").signature(), "c");
    assert_eq!(ClientError::Disconnected("d").signature(), "d");
}
