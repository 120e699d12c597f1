use ntex_bytes::BytePages;
use ntex_h2::codec::Codec;
use ntex_h2::config::ServiceConfig;
use ntex_h2::connection::{Action, Connection};
use ntex_h2::error::{OperationError, StreamError};
use ntex_h2::flow::FlowControl;
use ntex_h2::frame::{
    Protocol, PseudoHeaders, Reason, Reset, Settings, StreamId, UriParts, WindowUpdate,
};
use ntex_h2::hpack::{Decoder, DecoderError, Encoder, Header, NeedMore};
use ntex_h2::stream::parse_u64;
use ntex_h2::stream_data::StreamData;
use ntex_h2::window::Window;
use ntex_http::HeaderMap;

fn client(config: ServiceConfig) -> Connection {
    let mut con = Connection::new(Codec::default(), config, false, true, false);
    assert!(con.recv_settings(Settings::default()).is_ok());
    con.take_actions();
    con
}

#[test]
fn capacity_is_timed() {
    let mut config = ServiceConfig::new();
    config.capacity_timeout = Some(7);
    let mut con = client(config);
    let s = con
        .send_request(
            "localhost".to_string(),
            "GET".to_string(),
            "/".to_string(),
            HeaderMap::new(),
            false,
        )
        .unwrap();
    assert_eq!(s.poll_send_capacity(&mut con), Ok(Some(65_535)));
    let rest = s.send_payload(&mut con, vec![0; 70_000], false).unwrap();
    assert!(rest.is_some());
    assert!(con.take_actions().iter().any(|a| matches!(a, Action::TimerStart(t, 7) if *t == s)));

    assert_eq!(s.poll_send_capacity(&mut con), Ok(None));
    con.take_actions();
    // asking again does not put the timeout off
    assert_eq!(s.poll_send_capacity(&mut con), Ok(None));
    assert!(con.take_actions().is_empty());

    assert!(con.recv_window_update(WindowUpdate::new(StreamId::new(1), 100)).is_ok());
    assert!(matches!(
        &con.take_actions()[..],
        [Action::WakeSend(a), Action::TimerStop(b)] if *a == s && *b == s
    ));
    // the connection does not admit anything yet
    assert_eq!(s.poll_send_capacity(&mut con), Ok(None));
    assert!(matches!(&con.take_actions()[..], [Action::TimerStart(t, 7)] if *t == s));
    assert!(con.recv_window_update(WindowUpdate::new(StreamId::zero(), 50)).is_ok());
    assert!(con.take_actions().iter().any(|a| matches!(a, Action::TimerStop(t) if *t == s)));
    assert_eq!(s.poll_send_capacity(&mut con), Ok(Some(50)));

    s.capacity_timeout(&mut con);
    assert!(con.take_actions().iter().any(|a| matches!(
        a,
        Action::Send(ntex_h2::frame::Frame::Reset(r))
            if *r == Reset::new(StreamId::new(1), Reason::FLOW_CONTROL_ERROR)
    )));
    assert_eq!(
        s.poll_send_capacity(&mut con),
        Err(OperationError::Stream(StreamError::CapacityTimeout))
    );
}

#[test]
fn flow_control_windows() {
    let mut flow = FlowControl::new(100);
    assert_eq!(flow.window_size(), 100);
    assert_eq!(flow.need_update_window(200, 100), Some(100));
    assert_eq!(flow.need_update_window(200, 101), None);
    assert_eq!(flow.need_update_window(100, 0), None);
    flow.send_data(40);
    flow.dec_window(100);
    assert_eq!(flow.window_size(), 0);
    assert_eq!(flow.inc_window(50), Ok(()));
    assert_eq!(flow.window_size(), 10);
    assert_eq!(flow.inc_window(0x7fff_ffff), Err(Reason::FLOW_CONTROL_ERROR));
    assert_eq!(flow.window_size(), 10);

    // windows may be negative, and sizes may take all 32 bits
    let mut flow = FlowControl::new(-10);
    assert_eq!(flow.window_size(), 0);
    assert_eq!(flow.need_update_window(100, 110), Some(110));
    assert_eq!(flow.need_update_window(100, 111), None);
    assert_eq!(flow.need_update_window(0, 1), Some(10));
    assert_eq!(flow.need_update_window(0xffff_ffff, 9), Some(9));
    assert_eq!(flow.need_update_window(0xffff_ffff, 10), None);
    assert_eq!(flow.inc_window(0x8000_000a), Err(Reason::FLOW_CONTROL_ERROR));
    assert_eq!(flow.inc_window(0x8000_0009), Ok(()));
    assert_eq!(flow.window_size(), 0x7fff_ffff);
    flow.dec_window(0x8000_0000);
    assert_eq!(flow.need_update_window(0, 0), Some(1));
}

#[test]
fn increments_are_signed() {
    let increment = |n| WindowUpdate::new(StreamId::new(1), n).size_increment();
    assert_eq!(increment(7), 7);
    assert_eq!(increment(0x7fff_ffff), i32::MAX);
    assert_eq!(increment(0x8000_0000), i32::MIN);
    assert_eq!(increment(0xffff_ffff), -1);
}

#[test]
fn statuses_are_looked_up_in_the_table() {
    let status = || Header::new(b":status", b"299".to_vec()).unwrap();
    let mut encoder = Encoder::default();
    let mut first: Vec<u8> = Vec::new();
    encoder.encode(&[status()], &mut first);
    assert_eq!(first[0], 0x48);
    let mut second: Vec<u8> = Vec::new();
    encoder.encode(&[status()], &mut second);
    assert_eq!(second, vec![0xbe]);
}

#[test]
fn windows_compare_with_sizes() {
    let window = ntex_h2::flow::Window;
    assert!(window(5) == 5_usize && window(5) != 6_usize && window(-1) != 0_usize);
    assert!(window(5) < 6_usize && window(5) > 4_usize && window(-1) < 0_usize);
    assert_eq!(isize::from(window(-3)), -3);
}

#[test]
fn receive_windows() {
    // nothing can be reclaimed
    let mut window = Window::new(5);
    assert_eq!(window.update(5, 10, 0), None);
    assert_eq!(window.update(6, 10, 0), None);
    assert_eq!(window.window_size(), 5);
    assert_eq!(window.update(4, 10, 0), Some(1));
    let mut window = Window::new(40);
    assert_eq!(window.update(10, 100, 51), None);
    assert_eq!(window.update(10, 100, 50), Some(50));
    assert_eq!(window.window_size(), 90);
    assert!(window.inc(i32::MAX).is_err());
    assert!(!window.dec(90).available());
    assert_eq!(window.dec(100).window_size(), 0);
}

#[test]
fn content_lengths_are_decimal() {
    assert_eq!(parse_u64(b"0"), Some(0));
    assert_eq!(parse_u64(b"1234567890123456789"), Some(1_234_567_890_123_456_789));
    assert_eq!(parse_u64(b"12345678901234567890"), None);
    assert_eq!(parse_u64(b"12a"), None);
}

#[test]
fn paged_data_is_sent_page_by_page() {
    let mut pages = BytePages::default();
    pages.prepend(b"cde".to_vec());
    pages.prepend(b"ab".to_vec());
    let mut data = StreamData::from(pages);
    assert_eq!(data.len(), 5);
    let (frame, empty) = data.encode(StreamId::new(1), 3, true);
    assert_eq!(frame.payload()[..], b"abc"[..]);
    assert!(!frame.is_end_stream() && !empty);
    let (frame, empty) = data.encode(StreamId::new(1), 2, true);
    assert_eq!(frame.payload()[..], b"de"[..]);
    assert!(frame.is_end_stream() && empty);
    assert!(data.is_empty());
}

#[test]
fn header_blocks_may_be_broken() {
    let decode = |src: &[u8]| Decoder::new(4_096).decode(src).1;
    assert_eq!(decode(&[0x80]), Err(DecoderError::InvalidTableIndex));
    assert_eq!(decode(&[0xc8]), Err(DecoderError::InvalidTableIndex));
    assert_eq!(
        decode(&[0x00]),
        Err(DecoderError::NeedMore(NeedMore::UnexpectedEndOfStream))
    );
    assert_eq!(
        decode(&[0x0f]),
        Err(DecoderError::NeedMore(NeedMore::IntegerUnderflow))
    );
    assert_eq!(
        decode(&[0x00, 3, b'a']),
        Err(DecoderError::NeedMore(NeedMore::StringUnderflow))
    );
    assert_eq!(decode(&[0x82, 0x20]), Err(DecoderError::InvalidMaxDynamicSize));
    assert_eq!(decode(&[0x20, 0x82]), Ok(()));
    assert_eq!(
        decode(&[0x3f, 0xff, 0xff, 0xff, 0xff, 0xff, 0x01]),
        Err(DecoderError::IntegerOverflow)
    );
    // a Huffman code that is padded with a whole byte
    assert_eq!(
        decode(&[0x00, 0x82, 0x1f, 0xff, 1, b'a']),
        Err(DecoderError::InvalidHuffmanCode)
    );
    // an upper-case name
    assert!(decode(&[0x00, 1, b'A', 1, b'a']).is_err());
}

#[test]
fn headers_are_parsed() {
    match Header::new(b":status", b"404".to_vec()) {
        Ok(Header::Status(s)) => assert_eq!(s, 404),
        _ => panic!("expected status"),
    }
    assert!(matches!(
        Header::new(b":status", b"4x4".to_vec()),
        Err(DecoderError::InvalidStatusCode)
    ));
    assert!(matches!(
        Header::new(b":nope", b"1".to_vec()),
        Err(DecoderError::InvalidPseudoheader)
    ));
    let hdr = Header::new(b"content-length", b"10".to_vec()).unwrap();
    assert_eq!(hdr.len(), 14 + 2 + 32);
    assert_eq!(hdr.value_slice(), b"10".to_vec());
    assert!(hdr.skip_value_index());
    assert!(!hdr.is_sensitive());
    let same = Header::new(b"content-length", b"10".to_vec()).unwrap();
    assert!(hdr.value_eq(&same));
    let status = |s: &[u8]| Header::new(b":status", s.to_vec()).unwrap();
    assert!(status(b"200").value_eq(&status(b"200")));
    assert!(!status(b"200").value_eq(&status(b"404")));
    assert!(!status(b"200").value_eq(&hdr));
    let named = hdr.into_named();
    assert_eq!(named.reify().unwrap().value_slice(), b"10".to_vec());
}

#[test]
fn requests_have_a_path() {
    let uri = |path: Option<&str>| UriParts {
        scheme: Some("http".to_string()),
        authority: None,
        path_and_query: path.map(str::to_string),
    };
    let pseudo = PseudoHeaders::request("GET".to_string(), uri(None), None);
    assert_eq!(pseudo.path.as_deref(), Some("/"));
    let pseudo = PseudoHeaders::request("OPTIONS".to_string(), uri(Some("")), None);
    assert_eq!(pseudo.path, None);
    let protocol = Protocol::from_static("websocket");
    let mut pseudo = PseudoHeaders::request("CONNECT".to_string(), uri(Some("/x")), Some(protocol));
    assert_eq!(pseudo.path.as_deref(), Some("/x"));
    assert_eq!(pseudo.protocol.as_ref().map(Protocol::as_str), Some("websocket"));
    pseudo.set_scheme("https".to_string());
    pseudo.set_authority("a".to_string());
    pseudo.set_status(200);
    assert_eq!(pseudo.scheme.as_deref(), Some("https"));
    assert_eq!(pseudo.authority.as_deref(), Some("a"));
    assert_eq!(pseudo.status, Some(200));
}

#[test]
fn default_configuration() {
    let config = ServiceConfig::new();
    assert!(config.is_valid());
    assert_eq!(config.window_sz, 65_535);
    assert_eq!(config.window_sz_threshold, 65_535 / 3);
    assert_eq!(config.connection_window_sz, 1_048_576);
    assert_eq!(config.connection_window_sz_threshold, 1_048_576 / 4);
    assert_eq!(config.settings.max_concurrent_streams(), Some(256));
    assert_eq!(config.handshake_timeout, 5);
    let config = config
        .set_initial_window_size(10, 3)
        .set_initial_connection_window_size(100, 25)
        .set_max_frame_size(20_000)
        .set_max_header_list_size(7)
        .set_max_header_continuation_frames(2)
        .set_max_concurrent_reset_streams(4)
        .set_reset_stream_duration(9)
        .set_handshake_timeout(1);
    assert!(config.is_valid());
    assert_eq!(config.settings.initial_window_size(), Some(10));
    assert_eq!(config.settings.max_frame_size(), Some(20_000));
    assert_eq!(config.settings.max_header_list_size(), Some(7));
    assert_eq!(config.max_header_continuations, 2);
    assert_eq!((config.reset_max, config.reset_duration), (4, 9));
    assert!(!config.set_initial_window_size(0x8000_0000, 1).is_valid());
}
