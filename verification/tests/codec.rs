use ntex_h2::codec::{Codec, EncoderError};
use ntex_h2::config::ServiceConfig;
use ntex_h2::connection::{Action, Connection};
use ntex_h2::frame::{
    ContinuationError, Data, Frame, FrameError, GoAway, Headers, Ping, PseudoHeaders, Reason,
    Reset, Settings, StreamId, WindowUpdate,
};
use ntex_h2::hpack::{huffman, Encoder};
use ntex_h2::message::{Message, MessageKind};
use ntex_http::{HeaderMap, HeaderName, HeaderValue};

fn read(bytes: &[u8]) -> Result<Option<Frame>, FrameError> {
    let mut buf = bytes.to_vec();
    Codec::default().decode(&mut buf)
}

fn read_data(bytes: &[u8]) -> Data {
    match read(bytes) {
        Ok(Some(Frame::Data(frame))) => frame,
        _ => panic!("unexpected frame"),
    }
}

fn read_err(bytes: &[u8]) -> FrameError {
    match read(bytes) {
        Err(e) => e,
        Ok(_) => panic!("expected error"),
    }
}

// ===== DATA =====

#[test]
fn read_data_no_padding() {
    let mut buf: Vec<u8> = Vec::new();
    buf.extend_from_slice(&[0, 0, 5, 0, 0, 0, 0, 0, 1]);
    buf.extend_from_slice(b"hello");

    let data = read_data(&buf);
    assert_eq!(data.stream_id(), StreamId::new(1));
    assert_eq!(&data.payload()[..], &b"hello"[..]);
    assert!(!data.is_end_stream());
}

#[test]
fn read_data_empty_payload() {
    let mut buf: Vec<u8> = Vec::new();
    buf.extend_from_slice(&[0, 0, 0, 0, 0, 0, 0, 0, 1]);

    let data = read_data(&buf);
    assert_eq!(data.stream_id(), StreamId::new(1));
    assert_eq!(&data.payload()[..], &b""[..]);
    assert!(!data.is_end_stream());
}

#[test]
fn read_data_end_stream() {
    let mut buf: Vec<u8> = Vec::new();
    buf.extend_from_slice(&[0, 0, 5, 0, 1, 0, 0, 0, 1]);
    buf.extend_from_slice(b"hello");

    let data = read_data(&buf);
    assert_eq!(data.stream_id(), StreamId::new(1));
    assert_eq!(&data.payload()[..], &b"hello"[..]);
    assert!(data.is_end_stream());
}

#[test]
fn read_data_padding() {
    let mut buf: Vec<u8> = Vec::new();
    buf.extend_from_slice(&[0, 0, 16, 0, 0x8, 0, 0, 0, 1]);
    buf.extend_from_slice(&[5]); // Pad length
    buf.extend_from_slice(b"helloworld"); // Data
    buf.extend_from_slice(b"\0\0\0\0\0"); // Padding

    let data = read_data(&buf);
    assert_eq!(data.stream_id(), StreamId::new(1));
    assert_eq!(&data.payload()[..], &b"helloworld"[..]);
    assert!(!data.is_end_stream());
}

#[test]
fn read_push_promise() {
    let mut buf: Vec<u8> = Vec::new();
    buf.extend_from_slice(&[
        0, 0, 0x5, 0x5, 0x4, 0, 0, 0, 0x1, // stream id
        0, 0, 0, 0x2,  // promised id
        0x82, // HPACK :method="GET"
    ]);

    assert_eq!(read_err(&buf), FrameError::UnexpectedPushPromise);
}

#[test]
fn read_data_stream_id_zero() {
    let mut buf: Vec<u8> = Vec::new();
    buf.extend_from_slice(&[0, 0, 5, 0, 0, 0, 0, 0, 0]);
    buf.extend_from_slice(b"hello"); // Data

    assert_eq!(read_err(&buf), FrameError::InvalidStreamId);
}

// ===== HEADERS =====

fn build_large_headers() -> Vec<(&'static str, String)> {
    vec![
        ("one", "hello".to_string()),
        ("two", format!("{}", "b".repeat(4 * 1024))),
        ("three", "three".to_string()),
        ("four", format!("{}", "d".repeat(4 * 1024))),
        ("five", "five".to_string()),
        ("six", format!("{}", "e".repeat(4 * 1024))),
        ("seven", "seven".to_string()),
        ("eight", format!("{}", "f".repeat(4 * 1024))),
        ("nine", "nine".to_string()),
        ("ten", format!("{}", "g".repeat(4 * 1024))),
        ("eleven", format!("{}", "h".repeat(4 * 1024))),
        ("twelve", format!("{}", "i".repeat(4 * 1024))),
    ]
}

/// Hands the frames that one side has sent to the other side, and returns the headers
/// that came in and how many frames they took.
fn deliver(from: &mut Connection, to: &mut Connection) -> (Message, u32) {
    let mut buf: Vec<u8> = Vec::new();
    for action in from.take_actions() {
        if let Action::Send(frame @ Frame::Headers(_)) = action {
            assert!(from.codec.encode(frame, &mut buf).is_ok());
        }
    }
    let mut frames = 0;
    loop {
        frames += 1;
        match to.codec.decode(&mut buf) {
            Ok(Some(Frame::Headers(hdrs))) => {
                assert!(buf.is_empty());
                match to.recv_headers(hdrs) {
                    Ok(Some(msg)) => return (msg, frames),
                    _ => panic!("unexpected headers"),
                }
            }
            Ok(None) => (),
            _ => panic!("unexpected frame"),
        }
    }
}

#[test]
fn read_continuation_frames() {
    let large = build_large_headers();
    let mut map = HeaderMap::new();
    let mut expected = HeaderMap::new();
    for (name, value) in &large {
        map.append(HeaderName::try_from(*name).unwrap(), HeaderValue::from_str(value).unwrap());
        expected
            .append(HeaderName::try_from(*name).unwrap(), HeaderValue::from_str(value).unwrap());
    }
    let mut client = Connection::new(Codec::default(), ServiceConfig::new(), false, false, false);
    let mut server = Connection::new(Codec::default(), ServiceConfig::new(), true, false, false);

    let sent = client.send_request(
        "localhost".to_string(),
        "GET".to_string(),
        "/index.html".to_string(),
        HeaderMap::new(),
        true,
    );
    assert!(sent.is_ok());

    let (msg, frames) = deliver(&mut client, &mut server);
    assert_eq!(frames, 1);
    let stream = msg.stream;
    match msg.kind {
        MessageKind::Headers { pseudo, eof, .. } => {
            assert_eq!(pseudo.path, Some("/index.html".into()));
            assert!(eof);
        }
        _ => panic!("unexpected message"),
    }
    assert!(stream.send_response(&mut server, 200, map, true).is_ok());

    let (msg, frames) = deliver(&mut server, &mut client);
    assert!(frames > 1);
    match msg.kind {
        MessageKind::Headers { pseudo, headers, eof } => {
            assert_eq!(pseudo.status, Some(200));
            assert!(headers == expected);
            assert!(eof);
        }
        _ => panic!("unexpected message"),
    }
}

#[test]
fn test_nameless_header_at_resume() {
    let mut encoder = Encoder::default();
    let mut dst: Vec<u8> = Vec::new();

    let mut hdrs = HeaderMap::default();
    hdrs.append(HeaderName::from_static("hello"), HeaderValue::from_static("world"));
    hdrs.append(HeaderName::from_static("hello"), HeaderValue::from_static("zomg"));
    hdrs.append(HeaderName::from_static("hello"), HeaderValue::from_static("sup"));

    let mut headers = Headers::new(StreamId::zero(), Default::default(), hdrs, false);
    headers.set_end_headers();
    headers.encode(&mut encoder, &mut dst, 8);
    assert_eq!(48, dst.len());
    assert_eq!([0, 0, 8, 1, 0, 0, 0, 0, 0], &dst[0..9]);
    assert_eq!(&[0x40, 0x80 | 4], &dst[9..11]);
    assert_eq!(&b"hello"[..], &huffman::decode(&dst[11..15]).unwrap()[..]);
    assert_eq!(0x80 | 4, dst[15]);
    assert_eq!([0, 0, 8, 9, 0, 0, 0, 0, 0], &dst[17..26]);
}

// ===== Limits =====

#[test]
fn update_max_frame_len_at_rest() {
    let mut buf: Vec<u8> = Vec::new();
    buf.extend_from_slice(&[0, 0, 5, 0, 0, 0, 0, 0, 1]);
    buf.extend_from_slice(b"hello");
    buf.extend_from_slice(&[0, 64, 1, 0, 0, 0, 0, 0, 1]);
    buf.extend_from_slice(&vec![0; 16_385]);

    match Codec::default().decode(&mut buf) {
        Ok(Some(Frame::Data(data))) => assert_eq!(&data.payload()[..], &b"hello"[..]),
        _ => panic!("unexpected frame"),
    }

    let mut codec = Codec::default();
    codec.set_recv_frame_size(16_384);
    assert_eq!(codec.recv_frame_size(), 16_384);
    match codec.decode(&mut buf) {
        Err(e) => assert_eq!(e.message(), "Frame size exceeded"),
        Ok(_) => panic!("expected error"),
    }
}

#[test]
fn larger_frames_are_read_once_they_are_allowed() {
    let mut buf: Vec<u8> = vec![0, 64, 1, 0, 0, 0, 0, 0, 1];
    buf.extend_from_slice(&vec![7; 16_385]);

    let mut codec = Codec::default();
    codec.set_max_recv_frame_size(20_000);
    match codec.decode(&mut buf) {
        Ok(Some(Frame::Data(data))) => assert_eq!(data.payload().len(), 16_385),
        _ => panic!("unexpected frame"),
    }
}

#[test]
fn data_that_is_too_long_is_not_written() {
    let mut codec = Codec::default();
    let mut buf: Vec<u8> = Vec::new();
    let data = Data::new(StreamId::new(1), vec![0; 16_385]);
    assert_eq!(
        codec.encode(Frame::Data(data), &mut buf),
        Err(EncoderError::MaxSizeExceeded)
    );
    assert!(buf.is_empty());

    codec.set_max_send_frame_size(16_385);
    assert_eq!(codec.send_frame_size(), 16_385);
    let data = Data::new(StreamId::new(1), vec![0; 16_385]);
    assert!(codec.encode(Frame::Data(data), &mut buf).is_ok());
    assert_eq!(&buf[..9], &[0, 64, 1, 0, 0, 0, 0, 0, 1]);
}

#[test]
fn too_many_continuations_are_refused() {
    let mut codec = Codec::default();
    codec.set_max_header_continuations(2);
    let mut buf: Vec<u8> = vec![0, 0, 1, 1, 0, 0, 0, 0, 1, 0x82];
    assert!(matches!(codec.decode(&mut buf), Ok(None)));
    for _ in 0..2 {
        let mut buf: Vec<u8> = vec![0, 0, 1, 9, 0, 0, 0, 0, 1, 0x86];
        assert!(matches!(codec.decode(&mut buf), Ok(None)));
    }
    let mut buf: Vec<u8> = vec![0, 0, 1, 9, 4, 0, 0, 0, 1, 0x84];
    assert!(matches!(
        codec.decode(&mut buf),
        Err(FrameError::Continuation(ContinuationError::MaxContinuations))
    ));
}

#[test]
fn continued_blocks_must_not_grow_without_bounds() {
    let mut codec = Codec::default();
    codec.set_max_recv_header_list_size(2);
    let mut buf: Vec<u8> = vec![0, 0, 1, 1, 0, 0, 0, 0, 1, 0x82];
    assert!(matches!(codec.decode(&mut buf), Ok(None)));
    let mut buf: Vec<u8> = vec![0, 0, 2, 9, 4, 0, 0, 0, 1, 0x84, 0x86];
    assert!(matches!(
        codec.decode(&mut buf),
        Err(FrameError::Continuation(ContinuationError::MaxLeftoverSize))
    ));

    // frame heads are not buffered
    let mut codec = Codec::default();
    codec.set_max_recv_header_list_size(2);
    let mut buf: Vec<u8> = vec![0, 0, 1, 1, 0, 0, 0, 0, 1, 0x82];
    assert!(matches!(codec.decode(&mut buf), Ok(None)));
    let mut buf: Vec<u8> = vec![0, 0, 1, 9, 4, 0, 0, 0, 1, 0x84];
    assert!(matches!(codec.decode(&mut buf), Ok(Some(Frame::Headers(_)))));
}

#[test]
fn only_continuations_may_follow_an_open_block() {
    let mut codec = Codec::default();
    let mut buf: Vec<u8> = vec![0, 0, 1, 1, 0, 0, 0, 0, 1, 0x82];
    assert!(matches!(codec.decode(&mut buf), Ok(None)));
    let mut ping: Vec<u8> = vec![0, 0, 8, 6, 0, 0, 0, 0, 0, 1, 2, 3, 4, 5, 6, 7, 8];
    assert!(matches!(
        codec.decode(&mut ping),
        Err(FrameError::Continuation(ContinuationError::Expected))
    ));
    let mut other: Vec<u8> = vec![0, 0, 1, 9, 4, 0, 0, 0, 3, 0x84];
    assert!(matches!(
        codec.decode(&mut other),
        Err(FrameError::Continuation(ContinuationError::UnknownStreamId))
    ));
    let mut late: Vec<u8> = vec![0, 0, 1, 9, 4, 0, 0, 0, 1, 0x84];
    assert!(matches!(
        codec.decode(&mut late),
        Err(FrameError::Continuation(ContinuationError::Unexpected))
    ));
}

// ===== Other frames =====

#[test]
fn read_goaway_with_debug_data() {
    let mut buf: Vec<u8> = Vec::new();
    buf.extend_from_slice(&[
        // head
        0, 0, 22, 7, 0, 0, 0, 0, 0, // last_stream_id
        0, 0, 0, 1, // error_code
        0, 0, 0, 11,
    ]);
    // debug_data
    buf.extend_from_slice(b"too_many_pings");

    let data = match read(&buf) {
        Ok(Some(Frame::GoAway(frame))) => frame,
        _ => panic!("unexpected frame"),
    };
    assert_eq!(data.reason(), Reason::ENHANCE_YOUR_CALM);
    assert_eq!(data.last_stream_id(), StreamId::new(1));
    assert_eq!(&data.data()[..], b"too_many_pings");
}

#[test]
fn frames_are_read_as_they_were_written() {
    let mut settings = Settings::default();
    settings.set_initial_window_size(Some(70_000));
    settings.set_max_concurrent_streams(Some(7));
    settings.set_enable_push(false);
    settings.set_max_frame_size(17_000);

    let mut codec = Codec::default();
    let mut buf: Vec<u8> = Vec::new();
    assert!(codec.encode(Frame::Settings(settings), &mut buf).is_ok());
    assert!(codec.encode(Frame::Settings(Settings::ack()), &mut buf).is_ok());
    assert!(codec.encode(Frame::Ping(Ping::new([1, 2, 3, 4, 5, 6, 7, 8])), &mut buf).is_ok());
    let update = WindowUpdate::new(StreamId::new(5), 1234);
    assert!(codec.encode(Frame::WindowUpdate(update), &mut buf).is_ok());
    let reset = Reset::new(StreamId::new(9), Reason::REFUSED_STREAM);
    assert!(codec.encode(Frame::Reset(reset), &mut buf).is_ok());
    let away = GoAway::new(Reason::NO_ERROR)
        .set_last_stream_id(StreamId::new(11))
        .set_data(b"bye".to_vec());
    assert!(codec.encode(Frame::GoAway(away), &mut buf).is_ok());

    let mut reader = Codec::default();
    match reader.decode(&mut buf) {
        Ok(Some(Frame::Settings(s))) => assert_eq!(s, settings),
        _ => panic!("expected settings"),
    }
    match reader.decode(&mut buf) {
        Ok(Some(Frame::Settings(s))) => assert!(s.is_ack()),
        _ => panic!("expected ack"),
    }
    match reader.decode(&mut buf) {
        Ok(Some(Frame::Ping(p))) => {
            assert!(!p.is_ack());
            assert_eq!(p.into_payload(), [1, 2, 3, 4, 5, 6, 7, 8]);
        }
        _ => panic!("expected ping"),
    }
    match reader.decode(&mut buf) {
        Ok(Some(Frame::WindowUpdate(u))) => assert_eq!(u, update),
        _ => panic!("expected window update"),
    }
    match reader.decode(&mut buf) {
        Ok(Some(Frame::Reset(r))) => assert_eq!(r, reset),
        _ => panic!("expected reset"),
    }
    match reader.decode(&mut buf) {
        Ok(Some(Frame::GoAway(g))) => {
            assert_eq!(g.reason(), Reason::NO_ERROR);
            assert_eq!(g.last_stream_id(), StreamId::new(11));
            assert_eq!(&g.data()[..], b"bye");
        }
        _ => panic!("expected go away"),
    }
    assert!(buf.is_empty());
}

#[test]
fn request_headers_are_read_as_they_were_written() {
    let mut map = HeaderMap::new();
    map.append(HeaderName::from_static("accept"), HeaderValue::from_static("*/*"));
    map.append(HeaderName::from_static("x-one"), HeaderValue::from_static("a"));
    map.append(HeaderName::from_static("x-one"), HeaderValue::from_static("b"));
    let mut secret = HeaderValue::from_static("SECRET-REDACTED");
    secret.set_sensitive(true);
    map.append(HeaderName::from_static("authorization"), secret);

    let pseudo = PseudoHeaders {
        method: Some("POST".to_string()),
        scheme: Some("https".to_string()),
        authority: Some("example.com".to_string()),
        path: Some("/a?b".to_string()),
        protocol: None,
        status: None,
    };
    let mut writer = Codec::default();
    let mut reader = Codec::default();
    // the second time most of the headers are in the compression table
    for _ in 0..2 {
        let mut buf: Vec<u8> = Vec::new();
        let frame = Headers::new(StreamId::new(3), pseudo.clone(), map.clone(), true);
        assert!(writer.encode(Frame::Headers(frame), &mut buf).is_ok());
        match reader.decode(&mut buf) {
            Ok(Some(Frame::Headers(hdrs))) => {
                assert_eq!(hdrs.stream_id(), StreamId::new(3));
                assert!(hdrs.is_end_stream());
                let (pseudo, fields) = hdrs.into_parts();
                assert_eq!(pseudo.method.as_deref(), Some("POST"));
                assert_eq!(pseudo.scheme.as_deref(), Some("https"));
                assert_eq!(pseudo.authority.as_deref(), Some("example.com"));
                assert_eq!(pseudo.path.as_deref(), Some("/a?b"));
                assert_eq!(pseudo.status, None);
                let ones: Vec<&[u8]> = fields.get_all("x-one").map(|v| v.as_bytes()).collect();
                assert_eq!(ones, vec![&b"a"[..], &b"b"[..]]);
                assert_eq!(fields.get("authorization").unwrap().as_bytes(), b"SECRET-REDACTED");
            }
            _ => panic!("expected headers"),
        }
    }
}

#[test]
fn connection_fields_are_malformed() {
    // literal field without indexing: "connection" "close"
    let mut buf: Vec<u8> = vec![0, 0, 18, 1, 4, 0, 0, 0, 1, 0x00, 10];
    buf.extend_from_slice(b"connection");
    buf.push(5);
    buf.extend_from_slice(b"close");
    assert_eq!(read_err(&buf), FrameError::MalformedMessage);
}

#[test]
fn method_and_status_are_checked() {
    // :method with a space in it
    let mut buf: Vec<u8> = vec![0, 0, 5, 1, 4, 0, 0, 0, 1, 0x02, 3];
    buf.extend_from_slice(b"G T");
    assert!(read(&buf).is_err());
    // :status of two digits
    let mut buf: Vec<u8> = vec![0, 0, 4, 1, 4, 0, 0, 0, 1, 0x08, 2];
    buf.extend_from_slice(b"20");
    assert!(read(&buf).is_err());
    // :status of three digits
    let mut buf: Vec<u8> = vec![0, 0, 5, 1, 4, 0, 0, 0, 1, 0x08, 3];
    buf.extend_from_slice(b"204");
    match read(&buf) {
        Ok(Some(Frame::Headers(hdrs))) => assert_eq!(hdrs.pseudo().status, Some(204)),
        _ => panic!("expected headers"),
    }
}

#[test]
fn path_must_be_utf8() {
    let mut buf: Vec<u8> = vec![0, 0, 4, 1, 4, 0, 0, 0, 1, 0x04, 2];
    buf.extend_from_slice(&[0xff, 0xfe]);
    assert!(read(&buf).is_err());
}

#[test]
fn unknown_frames_are_skipped() {
    assert!(matches!(read(&[0, 0, 1, 0x42, 0, 0, 0, 0, 1, 9]), Ok(None)));
}

#[test]
fn settings_out_of_range_are_refused() {
    // ENABLE_PUSH = 2
    assert_eq!(
        read_err(&[0, 0, 6, 4, 0, 0, 0, 0, 0, 0, 2, 0, 0, 0, 2]),
        FrameError::InvalidSettingValue
    );
    // a payload that is no list of settings
    assert_eq!(
        read_err(&[0, 0, 5, 4, 0, 0, 0, 0, 0, 0, 2, 0, 0, 0]),
        FrameError::InvalidPayloadAckSettings
    );
    // an acknowledgement with a payload
    assert_eq!(
        read_err(&[0, 0, 6, 4, 1, 0, 0, 0, 0, 0, 2, 0, 0, 0, 0]),
        FrameError::InvalidPayloadLength
    );
}

#[test]
fn writable_frames() {
    assert!(Frame::Ping(Ping::new([0; 8])).is_writable(1));
    let hdrs = Headers::new(StreamId::new(1), PseudoHeaders::response(99), HeaderMap::new(), true);
    assert!(!Frame::Headers(hdrs).is_writable(16_384));
    let hdrs = Headers::new(StreamId::new(1), PseudoHeaders::response(200), HeaderMap::new(), true);
    assert!(Frame::Headers(hdrs).is_writable(16_384));
}
