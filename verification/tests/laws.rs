use ntex_h2::codec::length_delimited::Builder;
use ntex_h2::codec::Codec;
use ntex_h2::config::ServiceConfig;
use ntex_h2::connection::pending::Pending;
use ntex_h2::connection::view::EitherError;
use ntex_h2::connection::{Action, Connection, PingStep};
use ntex_h2::error::{ConnectionError, OperationError};
use ntex_h2::frame::{
    ContinuationError, Data, Frame, FrameError, Head, Headers, Kind, Ping, PseudoHeaders, Reason,
    Reset, Settings, StreamId, WindowUpdate,
};
use ntex_h2::hpack::{huffman, primitive, Decoder, Encoder};
use ntex_h2::message::MessageKind;
use ntex_h2::stream::StreamRef;
use ntex_h2::timer::Timer;
use ntex_http::HeaderMap;

fn host(config: ServiceConfig, is_server: bool) -> Connection {
    let mut con = Connection::new(Codec::default(), config, is_server, true, false);
    con.take_actions();
    con
}

fn server() -> Connection {
    host(ServiceConfig::new(), true)
}

fn client() -> Connection {
    let mut con = host(ServiceConfig::new(), false);
    assert!(con.recv_settings(Settings::default()).is_ok());
    con.take_actions();
    con
}

fn pseudo() -> PseudoHeaders {
    PseudoHeaders {
        method: Some("GET".to_string()),
        scheme: Some("https".to_string()),
        authority: Some("localhost".to_string()),
        path: Some("/".to_string()),
        protocol: None,
        status: None,
    }
}

fn headers(id: u32, eof: bool) -> Headers {
    Headers::new(StreamId::new(id), pseudo(), HeaderMap::new(), eof)
}

fn send(con: &mut Connection) -> StreamRef {
    con.send_request(
        "localhost".to_string(),
        "GET".to_string(),
        "/".to_string(),
        HeaderMap::new(),
        false,
    )
    .unwrap()
}

fn frames(con: &mut Connection) -> Vec<Frame> {
    con.take_actions()
        .into_iter()
        .filter_map(|a| match a {
            Action::Send(f) => Some(f),
            _ => None,
        })
        .collect()
}

#[test]
fn payload_is_sent_in_order() {
    let mut con = client();
    let s = send(&mut con);
    frames(&mut con);
    let data: Vec<u8> = (0..70_000u32).map(|n| (n % 251) as u8).collect();
    let rest = s.send_payload(&mut con, data.clone(), true).unwrap().unwrap();
    // the windows admit 65,535 bytes, a frame holds 16,384
    assert_eq!(rest.len(), 4_465);
    assert_eq!(s.available_send_capacity(&con), 0);
    let mut sent: Vec<u8> = Vec::new();
    let mut sizes = Vec::new();
    for frm in frames(&mut con) {
        match frm {
            Frame::Data(d) => {
                assert!(!d.is_end_stream());
                sizes.push(d.payload().len());
                sent.extend_from_slice(d.payload());
            }
            _ => panic!("expected data"),
        }
    }
    assert_eq!(sizes, vec![16_384, 16_384, 16_384, 16_383]);
    assert_eq!(sent, data[..65_535].to_vec());

    // the rest follows once the windows admit it
    let mut rest = rest;
    assert!(con.recv_window_update(WindowUpdate::new(StreamId::zero(), 10_000)).is_ok());
    assert!(con.recv_window_update(WindowUpdate::new(StreamId::new(1), 10_000)).is_ok());
    frames(&mut con);
    assert_eq!(s.send_pages(&mut con, &mut rest, true), Ok(true));
    match &frames(&mut con)[..] {
        [Frame::Data(d)] => {
            assert!(d.is_end_stream());
            assert_eq!(d.payload()[..], data[65_535..]);
        }
        _ => panic!("expected data"),
    }
}

#[test]
fn streams_are_reset_once() {
    let mut con = client();
    let s = send(&mut con);
    frames(&mut con);
    assert!(s.reset(&mut con, Reason::CANCEL));
    assert!(s.send_state(&con).is_closed());
    assert!(s.recv_state(&con).is_closed());
    assert!(con.query(StreamId::new(1)).is_none());
    match &frames(&mut con)[..] {
        [Frame::Reset(r)] => assert_eq!(*r, Reset::new(StreamId::new(1), Reason::CANCEL)),
        _ => panic!("expected reset"),
    }
    assert!(!s.reset(&mut con, Reason::NO_ERROR));
    assert!(frames(&mut con).is_empty());
    assert_eq!(
        s.send_payload(&mut con, vec![1], false).err(),
        Some(OperationError::Closed(None))
    );
}

#[test]
fn late_frames_are_tolerated_and_unknown_ones_are_not() {
    let mut con = server();
    assert!(con.recv_headers(headers(1, false)).is_ok());
    let s = con.query(StreamId::new(1)).unwrap();
    s.reset(&mut con, Reason::NO_ERROR);
    frames(&mut con);

    assert!(matches!(con.recv_data(Data::new(StreamId::new(1), vec![1])), Ok(None)));
    match &frames(&mut con)[..] {
        [Frame::Reset(r)] => assert_eq!(r.reason(), Reason::STREAM_CLOSED),
        _ => panic!("expected reset"),
    }
    assert!(con.recv_window_update(WindowUpdate::new(StreamId::new(1), 5)).is_ok());
    assert!(frames(&mut con).is_empty());

    // the peer has seen the reset: nothing may follow
    assert!(con.recv_rst_stream(Reset::new(StreamId::new(1), Reason::NO_ERROR)).is_ok());
    match con.recv_data(Data::new(StreamId::new(1), vec![1])) {
        Err(EitherError::Connection(e)) => {
            assert_eq!(e, ConnectionError::UnknownStream("Received data"));
            assert_eq!(e.to_goaway().reason(), Reason::PROTOCOL_ERROR);
        }
        _ => panic!("expected error"),
    }
    assert!(matches!(
        con.recv_window_update(WindowUpdate::new(StreamId::new(7), 5)),
        Err(EitherError::Connection(ConnectionError::UnknownStream("WINDOW_UPDATE")))
    ));
}

#[test]
fn one_stream_too_many_is_refused() {
    let mut con = host(ServiceConfig::new().set_max_concurrent_streams(2), true);
    assert!(matches!(con.recv_headers(headers(1, false)), Ok(Some(_))));
    assert!(matches!(con.recv_headers(headers(3, false)), Ok(Some(_))));
    assert!(matches!(con.recv_headers(headers(5, false)), Ok(None)));
    match &frames(&mut con)[..] {
        [Frame::Reset(r)] => {
            assert_eq!(*r, Reset::new(StreamId::new(5), Reason::REFUSED_STREAM))
        }
        _ => panic!("expected reset"),
    }
    assert!(matches!(
        con.recv_headers(headers(7, false)),
        Err(EitherError::Connection(ConnectionError::ConcurrencyOverflow))
    ));
}

#[test]
fn closing_connections_end_with_their_last_stream() {
    let mut con = server();
    assert!(con.recv_headers(headers(1, true)).is_ok());
    let s = con.query(StreamId::new(1)).unwrap();
    con.disconnect_when_ready();
    assert!(con.is_disconnecting());
    assert!(!con.is_closed());
    assert_eq!(
        con.check_error_with_disconnect(),
        Err(OperationError::Disconnecting)
    );
    con.take_actions();

    assert!(matches!(con.recv_headers(headers(3, true)), Ok(None)));
    match &frames(&mut con)[..] {
        [Frame::Reset(r)] => assert_eq!(r.reason(), Reason::REFUSED_STREAM),
        _ => panic!("expected reset"),
    }

    assert!(s.send_response(&mut con, 204, HeaderMap::new(), true).is_ok());
    assert!(con.is_closed());
    assert!(con.take_actions().iter().any(|a| matches!(a, Action::Close)));
}

#[test]
fn reservations_are_returned() {
    let mut con = client();
    assert!(con.reserve_stream());
    assert_eq!(con.active_streams(), 1);
    con.release_reserved_stream();
    assert_eq!(con.active_streams(), 0);
    assert!(con.stream_list().is_empty());

    assert!(con.reserve_stream());
    let s = con
        .send_reserved_request(
            "localhost".to_string(),
            "GET".to_string(),
            "/".to_string(),
            HeaderMap::new(),
            true,
        )
        .unwrap();
    assert_eq!(s.id(&con), StreamId::new(1));
    assert_eq!(con.active_streams(), 1);
}

#[test]
fn requests_get_ascending_identifiers() {
    let mut con = client();
    for id in [1, 3, 5, 7] {
        let s = send(&mut con);
        assert_eq!(s.id(&con), StreamId::new(id));
    }
    match &frames(&mut con)[..] {
        [Frame::Headers(h), ..] => {
            assert_eq!(h.pseudo().method.as_deref(), Some("GET"));
            assert_eq!(h.pseudo().scheme.as_deref(), Some("https"));
            assert_eq!(h.pseudo().authority.as_deref(), Some("localhost"));
            assert_eq!(h.pseudo().path.as_deref(), Some("/"));
            assert!(!h.is_end_stream());
        }
        _ => panic!("expected headers"),
    }
}

#[test]
fn pings_are_numbered() {
    let mut con = client();
    con.ping_start();
    con.ping();
    con.recv_pong(Ping::pong([0; 8]));
    con.ping();
    assert_eq!(con.pings_count(), 2);
    let sent: Vec<[u8; 8]> = frames(&mut con)
        .into_iter()
        .map(|f| match f {
            Frame::Ping(p) => p.into_payload(),
            _ => panic!("expected ping"),
        })
        .collect();
    assert_eq!(sent, vec![[0, 0, 0, 0, 0, 0, 0, 1], [0, 0, 0, 0, 0, 0, 0, 2]]);
}

#[test]
fn windows_are_announced_in_full() {
    let mut con = server();
    assert!(con.recv_headers(headers(1, false)).is_ok());
    frames(&mut con);
    let mut cap = match con.recv_data(Data::new(StreamId::new(1), vec![0; 60_000])) {
        Ok(Some(msg)) => match msg.kind {
            MessageKind::Data(data, cap) => {
                assert_eq!(data.len(), 60_000);
                cap
            }
            _ => panic!("expected data"),
        },
        _ => panic!("expected message"),
    };
    assert_eq!(cap.size(), 60_000);
    assert!(frames(&mut con).is_empty());

    // below the threshold nothing is announced
    cap.consume(&mut con, 1_000);
    assert!(frames(&mut con).is_empty());
    cap.consume(&mut con, 49_000);
    match &frames(&mut con)[..] {
        // 5,535 are left of the window, and 10,000 have not been consumed
        [Frame::WindowUpdate(u)] => {
            assert_eq!(*u, WindowUpdate::new(StreamId::new(1), 50_000))
        }
        _ => panic!("expected window update"),
    }
    assert_eq!(cap.size(), 10_000);
    cap.release(&mut con);
}

#[test]
fn windows_follow_the_settings_of_the_peer() {
    let mut con = client();
    let s = send(&mut con);
    assert_eq!(s.available_send_capacity(&con), 65_535);
    let mut settings = Settings::default();
    settings.set_initial_window_size(Some(1_000));
    assert!(con.recv_settings(settings).is_ok());
    assert_eq!(s.available_send_capacity(&con), 1_000);
    let t = send(&mut con);
    assert_eq!(t.available_send_capacity(&con), 1_000);
}

#[test]
fn go_away_ends_all_streams() {
    let mut con = client();
    let s = send(&mut con);
    let t = send(&mut con);
    assert_eq!(con.recv_go_away(Reason::ENHANCE_YOUR_CALM), vec![s, t]);
    for stream in [s, t] {
        assert!(stream.send_state(&con).is_closed());
        assert_eq!(stream.poll_send_reset(&con), Ok(true));
        assert_eq!(
            stream.send_payload(&mut con, vec![1], false).err(),
            Some(OperationError::Closed(Some(Reason::ENHANCE_YOUR_CALM)))
        );
    }
    assert_eq!(
        con.check_error(),
        Err(OperationError::Connection(ConnectionError::GoAway(Reason::ENHANCE_YOUR_CALM)))
    );
}

#[test]
fn protocol_errors_fail_all_streams() {
    let mut con = client();
    let s = send(&mut con);
    let err = ConnectionError::UnexpectedSettingsAck;
    assert_eq!(con.proto_error(&err), vec![s]);
    assert!(s.is_failed(&con));
    assert_eq!(con.check_error(), Err(OperationError::Connection(err)));
}

#[test]
fn reset_queue_is_limited() {
    let mut pending = Pending::new();
    for id in [1, 3, 5, 7] {
        pending.add(id, 0, 1_000, 3);
    }
    assert!(!pending.is_pending(1));
    assert!(pending.is_pending(3) && pending.is_pending(5) && pending.is_pending(7));
    assert!(pending.remove(5));
    assert!(!pending.is_pending(5));
    assert!(!pending.remove(5));
    // the others are forgotten in time
    pending.add(9, 1_001, 1_000, 3);
    assert!(!pending.is_pending(3) && !pending.is_pending(7));
    assert!(pending.is_pending(9));
}

#[test]
fn streams_time_out_on_their_second() {
    let mut timer = Timer::new();
    assert!(timer.register(1, 2, 100));
    assert!(!timer.register(2, 1, 100));
    assert!(!timer.register(3, 1, 100));
    timer.unregister(3);
    assert_eq!(timer.tick(), vec![]);
    assert_eq!(timer.tick(), vec![2]);
    assert_eq!(timer.tick(), vec![1]);
    assert!(timer.register(4, 1, 200));
    timer.stop();
    assert!(timer.register(4, 1, 200));
}

#[test]
fn integers_are_read_as_they_were_written() {
    let mut dst: Vec<u8> = Vec::new();
    primitive::encode_int(1337, 0x1f, 0, &mut dst);
    assert_eq!(dst, vec![31, 154, 10]);
    assert_eq!(primitive::decode_int(&dst, 0, 0x1f), Ok((1337, 3)));
    let mut dst: Vec<u8> = Vec::new();
    primitive::encode_int(10, 0x1f, 0x20, &mut dst);
    assert_eq!(dst, vec![0x2a]);
}

#[test]
fn strings_are_read_as_they_were_written() {
    let mut dst: Vec<u8> = Vec::new();
    primitive::encode_string(b"www.example.com", &mut dst);
    assert_eq!(
        dst,
        vec![0x8c, 0xf1, 0xe3, 0xc2, 0xe5, 0xf2, 0x3a, 0x6b, 0xa0, 0xab, 0x90, 0xf4, 0xff]
    );
    assert_eq!(
        primitive::decode_string(&dst, 0),
        Ok((b"www.example.com".to_vec(), 13))
    );
    let all: Vec<u8> = (0..=255).collect();
    let mut dst: Vec<u8> = Vec::new();
    huffman::encode(&all, &mut dst);
    assert_eq!(huffman::decode(&dst), Ok(all));
}

#[test]
fn header_blocks_are_read_as_they_were_written() {
    let mut encoder = Encoder::default();
    let mut decoder = Decoder::new(4_096);
    let mut frame = headers(1, true);
    frame.set_end_headers();
    let mut dst: Vec<u8> = Vec::new();
    frame.encode(&mut encoder, &mut dst, 16_384);
    let head = Head::parse(&dst);
    assert_eq!(head.kind(), Kind::Headers);
    let mut payload = dst[9..].to_vec();
    let mut back = Headers::load(head, &mut payload).unwrap();
    assert!(back.load_hpack(&payload, &mut decoder).is_ok());
    assert_eq!(back.stream_id(), StreamId::new(1));
    assert!(back.is_end_stream());
    assert_eq!(back.pseudo().authority.as_deref(), Some("localhost"));
}

#[test]
fn heads_and_reasons_are_read_as_they_were_written() {
    let head = Head::new(Kind::Ping, 1, StreamId::new(3));
    let mut dst: Vec<u8> = Vec::new();
    head.encode(0x01_02_03, &mut dst);
    assert_eq!(dst, vec![1, 2, 3, 6, 1, 0, 0, 0, 3]);
    assert_eq!(Head::parse(&dst), head);

    // neither the length nor the payload is a part of the head
    let mut long: Vec<u8> = Vec::new();
    head.encode(0x05_0a_0b_0c, &mut long);
    assert_eq!(long, vec![10, 11, 12, 6, 1, 0, 0, 0, 3]);
    long.extend_from_slice(b"payload");
    assert_eq!(Head::parse(&long), head);

    for code in 0..14 {
        assert_eq!(Reason::from(code).code(), code);
    }
}

#[test]
fn delimited_frames_are_read_as_they_were_written() {
    let mut builder = Builder::new();
    builder.length_field_length(2).max_frame_length(100);
    let mut codec = builder.new_codec();
    let mut buf: Vec<u8> = Vec::new();
    assert!(codec.encode(b"hello", &mut buf).is_ok());
    assert_eq!(buf, b"\0\x05hello".to_vec());
    buf.extend_from_slice(b"\0\x09rest");
    assert_eq!(codec.decode(&mut buf).unwrap(), Some(b"hello".to_vec()));
    assert_eq!(codec.decode(&mut buf).unwrap(), None);
    assert!(codec.encode(&[0; 101], &mut buf).is_err());
}

#[test]
fn delimited_frames_come_in_any_pieces() {
    let mut codec = Builder::new().new_codec();
    let mut frame: Vec<u8> = Vec::new();
    assert!(codec.encode(b"hello", &mut frame).is_ok());
    assert_eq!(frame.len(), 9);

    // byte by byte
    let mut buf: Vec<u8> = Vec::new();
    for byte in &frame[..8] {
        buf.push(*byte);
        assert_eq!(codec.decode(&mut buf).unwrap(), None);
    }
    buf.push(frame[8]);
    assert_eq!(codec.decode(&mut buf).unwrap(), Some(b"hello".to_vec()));
    assert!(buf.is_empty());

    // in two pieces, the second one with more behind it
    for cut in 1..9 {
        let mut buf = frame[..cut].to_vec();
        assert_eq!(codec.decode(&mut buf).unwrap(), None);
        buf.extend_from_slice(&frame[cut..]);
        buf.push(7);
        assert_eq!(codec.decode(&mut buf).unwrap(), Some(b"hello".to_vec()));
        assert_eq!(buf, vec![7]);
    }
}

#[test]
fn active_streams_are_open_or_reserved() {
    let mut con = client();
    assert_eq!(con.active_streams(), 0);
    let first = send(&mut con);
    let second = send(&mut con);
    assert!(con.reserve_stream());
    assert_eq!(con.active_streams(), 3);

    // one side is not enough
    assert!(matches!(second.send_payload(&mut con, vec![], true), Ok(None)));
    assert_eq!(con.active_streams(), 3);
    let response =
        Headers::new(second.id(&con), PseudoHeaders::response(204), HeaderMap::new(), true);
    assert!(con.recv_headers(response).is_ok());
    assert_eq!(con.active_streams(), 2);

    first.reset(&mut con, Reason::CANCEL);
    assert_eq!(con.active_streams(), 1);
    con.release_reserved_stream();
    assert_eq!(con.active_streams(), 0);
    assert!(con.stream_list().is_empty());
}

fn try_send(con: &mut Connection) -> Result<StreamRef, OperationError> {
    con.send_request(
        "localhost".to_string(),
        "GET".to_string(),
        "/".to_string(),
        HeaderMap::new(),
        false,
    )
}

#[test]
fn refused_requests_leave_nothing_behind() {
    // identifiers have run out
    let mut con = client();
    con.state.next_stream_id = StreamId::new(0x7fff_fffd);
    let last = send(&mut con);
    assert_eq!(last.id(&con), StreamId::new(0x7fff_fffd));
    assert_eq!(con.active_streams(), 1);
    frames(&mut con);
    for _ in 0..2 {
        assert_eq!(try_send(&mut con), Err(OperationError::OverflowedStreamId));
        assert_eq!(con.active_streams(), 1);
        assert_eq!(con.stream_list(), vec![last]);
        assert!(frames(&mut con).is_empty());
    }
    con.disconnect_when_ready();
    last.reset(&mut con, Reason::CANCEL);
    assert_eq!(con.active_streams(), 0);
    assert!(con.is_closed());

    // the connection is about to be closed
    let mut con = client();
    send(&mut con);
    con.disconnect_when_ready();
    assert_eq!(try_send(&mut con), Err(OperationError::Disconnecting));
    assert_eq!(con.active_streams(), 1);

    // the connection has failed
    let mut con = client();
    con.proto_error(&ConnectionError::WindowValueOverflow);
    assert_eq!(
        try_send(&mut con),
        Err(OperationError::Connection(ConnectionError::WindowValueOverflow))
    );
}

#[test]
fn preconditions_can_be_tested() {
    let mut con = client();
    let s = send(&mut con);
    assert!(con.is_known(s) && con.is_registered(s) && !con.is_released(s));
    s.reset(&mut con, Reason::CANCEL);
    assert!(!con.is_registered(s) && !con.is_released(s));
    con.release(s);
    assert!(con.is_released(s));
    assert!(!con.is_known(StreamRef(7)));

    assert_eq!(con.reserved_streams(), 0);
    assert!(con.reserve_stream());
    assert_eq!(con.reserved_streams(), 1);

    con.state.pings_count = u16::MAX;
    assert!(con.can_ping());
    con.ping_start();
    assert!(!con.can_ping());
    con.close();
    assert!(con.can_ping());
    assert_eq!(con.ping(), PingStep::Stop);
}

#[test]
fn continuation_errors_are_told_apart() {
    let begin = || vec![0, 0, 1, 1, 0, 0, 0, 0, 1, 0x82];
    let error = |codec: &mut Codec, mut bytes: Vec<u8>| match codec.decode(&mut bytes) {
        Err(FrameError::Continuation(e)) => e,
        _ => panic!("expected an error"),
    };
    // nothing to continue
    let mut codec = Codec::default();
    let e = error(&mut codec, vec![0, 0, 1, 9, 4, 0, 0, 0, 1, 0x84]);
    assert!(matches!(e, ContinuationError::Unexpected));

    // a frame of any other kind, even one that would be ignored
    for kind in [0, 1, 2, 3, 4, 5, 6, 7, 8, 10, 200] {
        let mut codec = Codec::default();
        assert!(matches!(codec.decode(&mut begin()), Ok(None)));
        let e = error(&mut codec, vec![0, 0, 0, kind, 0, 0, 0, 0, 1]);
        assert!(matches!(e, ContinuationError::Expected));
    }

    // another stream
    let mut codec = Codec::default();
    assert!(matches!(codec.decode(&mut begin()), Ok(None)));
    let e = error(&mut codec, vec![0, 0, 1, 9, 4, 0, 0, 0, 3, 0x84]);
    assert!(matches!(e, ContinuationError::UnknownStreamId));

    // the same stream
    let mut codec = Codec::default();
    assert!(matches!(codec.decode(&mut begin()), Ok(None)));
    let mut end: Vec<u8> = vec![0, 0, 1, 9, 4, 0, 0, 0, 1, 0x84];
    assert!(matches!(codec.decode(&mut end), Ok(Some(Frame::Headers(_)))));
}

#[test]
fn capacity_is_reported() {
    let told = |con: &mut Connection| {
        con.take_actions().iter().any(|a| matches!(a, Action::Capacity))
    };
    let mut con = client();
    let s = send(&mut con);
    assert!(!told(&mut con));
    s.reset(&mut con, Reason::CANCEL);
    assert!(told(&mut con));
    assert!(con.reserve_stream());
    con.release_reserved_stream();
    assert!(told(&mut con));
    let mut settings = Settings::default();
    assert!(con.recv_settings(settings).is_ok());
    assert!(!told(&mut con));
    settings.set_max_concurrent_streams(Some(3));
    assert!(con.recv_settings(settings).is_ok());
    assert!(told(&mut con));
    con.recv_go_away(Reason::NO_ERROR);
    assert!(told(&mut con));
    con.close();
    assert!(told(&mut con));
}
