use ntex_h2::config::ServiceConfig;
use ntex_h2::connection::{Action, Connection};
use ntex_h2::control::{Control, ControlAck, Reason as ControlReason};
use ntex_h2::default::DefaultControlService;
use ntex_h2::dispatcher::{DispatchItem, Dispatcher, ReadyStep, Step, StopReason};
use ntex_h2::error::{ConnectionError, OperationError, StreamError};
use ntex_h2::frame::{
    Data, Frame, FrameError, GoAway, Headers, Ping, PseudoHeaders, Reason, Settings, StreamId,
    WindowUpdate,
};
use ntex_h2::message::{MessageKind, StreamEof};
use ntex_h2::request::Request;
use ntex_h2::server::builder::ServerBuilder;
use ntex_h2::server::dispatcher::{self, ServerItem, Shutdown, ShutdownStep};
use ntex_h2::server::{self, Handshake, ServerError};
use ntex_http::{HeaderMap, HeaderName, HeaderValue};

const PREFACE: [u8; 24] = *b"PRI * HTTP/2.0\r\n\r\nSM\r\n\r\n";

fn disp() -> Dispatcher {
    let read = Handshake::Read(Ok(PREFACE.to_vec()));
    match server::start::<()>(read, ServiceConfig::new()) {
        Ok(mut disp) => {
            disp.connection.take_actions();
            disp
        }
        Err(_) => panic!("preface"),
    }
}

fn pseudo() -> PseudoHeaders {
    PseudoHeaders {
        method: Some("GET".to_string()),
        scheme: Some("https".to_string()),
        authority: Some("localhost:80".to_string()),
        path: Some("/a?b=c".to_string()),
        protocol: None,
        status: None,
    }
}

fn with_length(id: u32, len: &'static str, eof: bool) -> Headers {
    let mut map = HeaderMap::new();
    map.append(HeaderName::from_static("content-length"), HeaderValue::from_static(len));
    Headers::new(StreamId::new(id), pseudo(), map, eof)
}

fn headers(id: u32, eof: bool) -> Headers {
    Headers::new(StreamId::new(id), pseudo(), HeaderMap::new(), eof)
}

fn sent(con: &mut Connection) -> Vec<Frame> {
    con.take_actions()
        .into_iter()
        .filter_map(|a| match a {
            Action::Send(f) => Some(f),
            _ => None,
        })
        .collect()
}

/// The error that a frame ends the connection with.
fn broken(disp: &mut Dispatcher, frm: Frame) -> ConnectionError {
    match disp.call::<()>(DispatchItem::Item(frm)) {
        Step::Disconnect(_, Some(Control::Disconnect(ControlReason::ProtocolError(e)))) => {
            *e.get_ref()
        }
        _ => panic!("expected protocol error"),
    }
}

/// The error that a frame ends its stream with.
fn failed(disp: &mut Dispatcher, frm: Frame) -> StreamError {
    match disp.call::<()>(DispatchItem::Item(frm)) {
        Step::Publish(msg) => match msg.kind {
            MessageKind::Eof(StreamEof::Error(e)) => e,
            _ => panic!("expected error"),
        },
        _ => panic!("expected message"),
    }
}

fn open(disp: &mut Dispatcher, hdrs: Headers) {
    assert!(matches!(
        disp.call::<()>(DispatchItem::Item(Frame::Headers(hdrs))),
        Step::Publish(_)
    ));
}

#[test]
fn preface_is_checked() {
    assert_eq!(server::check_preface(&PREFACE), Ok(()));
    assert_eq!(server::check_preface(&PREFACE[..23]), Err(FrameError::InvalidPreface));
    let mut other = PREFACE;
    other[5] = b'/';
    assert!(matches!(
        server::start::<()>(Handshake::Read(Ok(other.to_vec())), ServiceConfig::new()),
        Err(ServerError::Frame(FrameError::InvalidPreface))
    ));
    assert!(matches!(
        server::start::<()>(Handshake::TimedOut, ServiceConfig::new()),
        Err(ServerError::HandshakeTimeout)
    ));
    let err = std::io::Error::from(std::io::ErrorKind::UnexpectedEof);
    match server::start::<()>(Handshake::Read(Err(err)), ServiceConfig::new()) {
        Err(ServerError::Disconnected(Some(e))) => {
            assert_eq!(e.kind(), std::io::ErrorKind::UnexpectedEof)
        }
        _ => panic!("expected error"),
    }
}

#[test]
fn pings_are_answered() {
    let mut disp = disp();
    match disp.call::<()>(DispatchItem::Item(Frame::Ping(Ping::new([7; 8])))) {
        Step::Reply(Frame::Ping(p)) => {
            assert!(p.is_ack());
            assert_eq!(p.into_payload(), [7; 8]);
        }
        _ => panic!("expected reply"),
    }
}

#[test]
fn settings_are_acknowledged_once() {
    let mut disp = disp();
    let ack = Frame::Settings(Settings::ack());
    assert!(matches!(disp.call::<()>(DispatchItem::Item(ack)), Step::Done));
    let again = Frame::Settings(Settings::ack());
    assert_eq!(broken(&mut disp, again), ConnectionError::UnexpectedSettingsAck);
}

#[test]
fn requests_need_their_pseudo_headers() {
    for (missing, name) in [(0, "method"), (1, "scheme"), (2, "path")] {
        let mut p = pseudo();
        match missing {
            0 => p.method = None,
            1 => p.scheme = None,
            _ => p.path = None,
        }
        let hdrs = Headers::new(StreamId::new(1), p, HeaderMap::new(), true);
        let mut disp = disp();
        match broken(&mut disp, Frame::Headers(hdrs)) {
            ConnectionError::MissingPseudo(s) => {
                assert_eq!(s, name);
                let data = format!("Missing pseudo header {:?}", s).into_bytes();
                let away = ConnectionError::MissingPseudo(s).to_goaway();
                assert_eq!(*away.data(), data);
            }
            _ => panic!("expected missing pseudo header"),
        }
    }
    let mut p = pseudo();
    p.status = Some(200);
    let hdrs = Headers::new(StreamId::new(1), p, HeaderMap::new(), true);
    let mut disp = disp();
    assert_eq!(
        broken(&mut disp, Frame::Headers(hdrs)),
        ConnectionError::UnexpectedPseudo("scheme")
    );
}

#[test]
fn streams_of_the_other_side_are_refused() {
    let mut disp = disp();
    assert!(matches!(
        broken(&mut disp, Frame::Headers(headers(2, true))),
        ConnectionError::InvalidStreamId(_)
    ));
}

#[test]
fn windows_do_not_overflow() {
    let mut disp = disp();
    let frm = Frame::WindowUpdate(WindowUpdate::new(StreamId::zero(), 0x7fff_ffff));
    assert_eq!(broken(&mut disp, frm), ConnectionError::WindowValueOverflow);

    let mut disp = self::disp();
    open(&mut disp, headers(1, false));
    let frm = Frame::WindowUpdate(WindowUpdate::new(StreamId::new(1), 0x7fff_ffff));
    assert_eq!(failed(&mut disp, frm), StreamError::WindowOverflowed);
    assert!(sent(&mut disp.connection)
        .iter()
        .any(|f| matches!(f, Frame::Reset(r) if r.reason() == Reason::FLOW_CONTROL_ERROR)));
}

#[test]
fn windows_are_not_updated_by_nothing() {
    let mut disp = disp();
    open(&mut disp, headers(1, false));
    let frm = Frame::WindowUpdate(WindowUpdate::new(StreamId::new(1), 0));
    assert_eq!(failed(&mut disp, frm), StreamError::WindowZeroUpdateValue);
    let frm = Frame::WindowUpdate(WindowUpdate::new(StreamId::zero(), 0));
    assert_eq!(broken(&mut disp, frm), ConnectionError::ZeroWindowUpdateValue);
}

#[test]
fn content_length_is_checked() {
    let mut disp = disp();
    open(&mut disp, with_length(1, "5", false));
    let mut data = Data::new(StreamId::new(1), b"1234".to_vec());
    data.set_end_stream();
    assert_eq!(failed(&mut disp, Frame::Data(data)), StreamError::WrongPayloadLength);

    open(&mut disp, with_length(3, "5", false));
    let data = Data::new(StreamId::new(3), b"123456".to_vec());
    assert_eq!(failed(&mut disp, Frame::Data(data)), StreamError::WrongPayloadLength);

    open(&mut disp, with_length(5, "5", false));
    let mut data = Data::new(StreamId::new(5), b"12345".to_vec());
    data.set_end_stream();
    match disp.call::<()>(DispatchItem::Item(Frame::Data(data))) {
        Step::Publish(msg) => assert!(matches!(
            msg.kind(),
            MessageKind::Eof(StreamEof::Data(d)) if d[..] == b"12345"[..]
        )),
        _ => panic!("expected message"),
    }

    let frm = Frame::Headers(with_length(7, "five", false));
    assert_eq!(failed(&mut disp, frm), StreamError::InvalidContentLength);
}

#[test]
fn trailers_end_a_stream() {
    let mut disp = disp();
    open(&mut disp, headers(1, false));
    let mut map = HeaderMap::new();
    map.append(HeaderName::from_static("x-sum"), HeaderValue::from_static("1"));
    let hdrs = Headers::trailers(StreamId::new(1), map);
    match disp.call::<()>(DispatchItem::Item(Frame::Headers(hdrs))) {
        Step::Publish(msg) => match msg.kind() {
            MessageKind::Eof(StreamEof::Trailers(map)) => {
                assert_eq!(map.get("x-sum").unwrap().as_bytes(), b"1")
            }
            _ => panic!("expected trailers"),
        },
        _ => panic!("expected message"),
    }

    open(&mut disp, headers(3, false));
    let hdrs = Headers::new(StreamId::new(3), PseudoHeaders::default(), HeaderMap::new(), false);
    assert_eq!(failed(&mut disp, Frame::Headers(hdrs)), StreamError::TrailersWithoutEos);
}

#[test]
fn goaway_of_the_peer_is_not_answered() {
    let mut disp = disp();
    open(&mut disp, headers(1, false));
    let frm = Frame::GoAway(GoAway::new(Reason::NO_ERROR));
    match disp.call::<()>(DispatchItem::Item(frm)) {
        Step::Disconnect(messages, Some(control)) => {
            assert_eq!(messages.len(), 1);
            assert!(matches!(
                messages[0].kind(),
                MessageKind::Disconnect(OperationError::Connection(ConnectionError::GoAway(
                    Reason::NO_ERROR
                )))
            ));
            assert!(DefaultControlService.call(control).frame.is_none());
        }
        _ => panic!("expected disconnect"),
    }
    // the control service hears of the end once
    match disp.call::<()>(DispatchItem::Stop(StopReason::Io(None))) {
        Step::Disconnect(messages, None) => assert!(messages.is_empty()),
        _ => panic!("expected disconnect"),
    }
}

#[test]
fn service_errors_end_the_connection() {
    let mut disp = disp();
    open(&mut disp, headers(1, false));
    let stream = disp.connection.query(StreamId::new(1)).unwrap();
    sent(&mut disp.connection);
    match disp.publish_done(stream, Err("failed")) {
        Step::Disconnect(_, Some(control)) => {
            disp.control_done(Ok(control.ack()));
        }
        _ => panic!("expected disconnect"),
    }
    match &sent(&mut disp.connection)[..] {
        [Frame::GoAway(f)] => {
            assert_eq!(f.reason(), Reason::INTERNAL_ERROR);
            assert_eq!(f.last_stream_id(), StreamId::new(1));
        }
        _ => panic!("expected goaway"),
    }
    assert!(disp.connection.is_closed());
}

#[test]
fn readiness_of_both_services() {
    assert!(matches!(Dispatcher::ready::<()>(Ok(()), Ok(())), ReadyStep::Ready));
    assert!(matches!(Dispatcher::ready::<()>(Ok(()), Err(())), ReadyStep::Failed));
    assert!(matches!(Dispatcher::ready::<()>(Err(()), Err(())), ReadyStep::Failed));
    match Dispatcher::ready("down".to_string().as_str().parse::<u8>().map(|_| ()), Ok(())) {
        ReadyStep::Control(Control::Disconnect(ControlReason::Error(_))) => (),
        _ => panic!("expected control"),
    }
}

#[test]
fn too_many_headers_refuse_the_stream() {
    let mut disp = disp();
    let stop = StopReason::Decoder(FrameError::TooManyHeaders(StreamId::new(9)));
    assert!(matches!(disp.call::<()>(DispatchItem::Stop(stop)), Step::Done));
    match &sent(&mut disp.connection)[..] {
        [Frame::Reset(r)] => {
            assert_eq!(r.stream_id(), StreamId::new(9));
            assert_eq!(r.reason(), Reason::REFUSED_STREAM);
        }
        _ => panic!("expected reset"),
    }
}

#[test]
fn shutdown_tells_the_control_service_first() {
    let mut st = Shutdown::NotSet;
    assert_eq!(st.poll(false), ShutdownStep::Terminate);
    assert_eq!(st.poll(false), ShutdownStep::Wait);
    assert_eq!(st.poll(true), ShutdownStep::Services);
    assert_eq!(st.poll(false), ShutdownStep::Services);
}

#[test]
fn pushes_are_refused() {
    match dispatcher::call::<()>(ServerItem::PushPromise) {
        Some(Control::Disconnect(ControlReason::GoAway(f))) => {
            assert_eq!(f.frame().reason(), Reason::PROTOCOL_ERROR);
            assert_eq!(*f.frame().data(), b"PUSHPROMISE is disabled".to_vec());
        }
        _ => panic!("expected control"),
    }
    assert!(dispatcher::call::<()>(ServerItem::Ignored).is_none());
    assert!(dispatcher::call::<()>(ServerItem::Handled(Ok(()))).is_none());
    match dispatcher::control_response(Err(())) {
        Some(Frame::GoAway(f)) => assert_eq!(f.reason(), Reason::INTERNAL_ERROR),
        _ => panic!("expected goaway"),
    }
    assert!(dispatcher::control_response(Ok(ControlAck { frame: None })).is_none());
}

#[test]
fn servers_are_configured() {
    let builder = ServerBuilder::new().configure(|cfg| cfg.set_max_concurrent_streams(3));
    assert_eq!(builder.config.settings.max_concurrent_streams(), Some(3));
}

#[test]
fn shutting_down_waits_for_the_streams() {
    let mut disp = disp();
    open(&mut disp, headers(1, true));
    server::poll(&mut disp, false);
    assert!(!disp.connection.is_disconnecting());
    server::poll(&mut disp, true);
    assert!(disp.connection.is_disconnecting());
}

#[test]
fn requests_are_made_of_headers() {
    let req = Request::from_headers(headers(1, true));
    assert_eq!(req.method, "GET");
    assert_eq!(req.uri.scheme.as_deref(), Some("https"));
    assert_eq!(req.uri.authority.as_deref(), Some("localhost:80"));
    assert_eq!(req.uri.path_and_query.as_deref(), Some("/a?b=c"));

    // a path ends where its fragment begins
    let mut p = pseudo();
    p.path = Some("/a#b".to_string());
    p.method = Some("PUT".to_string());
    let hdrs = Headers::new(StreamId::new(1), p, HeaderMap::new(), true);
    let req = Request::from_headers(hdrs);
    assert_eq!(req.uri.path_and_query.as_deref(), Some("/a"));
    assert_eq!(req.method, "PUT");

    // parts that are not valid are left out, and the rest is no URI
    let mut p = pseudo();
    p.authority = Some("a b".to_string());
    let hdrs = Headers::new(StreamId::new(1), p, HeaderMap::new(), true);
    let req = Request::from_headers(hdrs);
    assert_eq!(req.uri.scheme, None);
    assert_eq!(req.uri.authority, None);
    assert_eq!(req.uri.path_and_query.as_deref(), Some("/"));

    let mut p = pseudo();
    p.scheme = Some("ht tps".to_string());
    p.authority = None;
    let hdrs = Headers::new(StreamId::new(1), p, HeaderMap::new(), true);
    let req = Request::from_headers(hdrs);
    assert_eq!(req.uri.scheme, None);
    assert_eq!(req.uri.path_and_query.as_deref(), Some("/a?b=c"));
}

#[test]
fn errors_become_goaway_frames() {
    let away = ConnectionError::StreamClosed(StreamId::new(1_205), "test").to_goaway();
    assert_eq!(away.reason(), Reason::STREAM_CLOSED);
    assert_eq!(*away.data(), b"StreamId(1205) is closed".to_vec());
    let away = ConnectionError::UnexpectedPseudo("a\"b").to_goaway();
    assert_eq!(*away.data(), b"Unexpected pseudo header \"a\\\"b\"".to_vec());
    let away = ConnectionError::ReadTimeout.to_goaway();
    assert_eq!(away.reason(), Reason::NO_ERROR);
    assert_eq!(*away.data(), b"Frame read timeout".to_vec());
}
