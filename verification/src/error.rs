use vstd::prelude::*;

pub use crate::codec::EncoderError;

use crate::frame::go_away::GoAwayView;
use crate::frame::{FrameError, GoAway, Reason, StreamId};
use crate::hpack::header::bytes_of;
use crate::http;
use crate::stream::StreamRef;

verus! {

/// HTTP/2 connection-level protocol error.
#[derive(Debug, Copy, Clone, PartialEq, Eq)]
pub enum ConnectionError {
    /// The connection is closing with the specified reason.
    GoAway(Reason),
    /// A frame referenced an unknown stream.
    UnknownStream(&'static str),
    /// Frame encoding failed.
    Encoder(EncoderError),
    /// Frame decoding failed.
    Decoder(FrameError),
    /// A frame was received for a closed stream.
    StreamClosed(StreamId, &'static str),
    /// An invalid stream identifier was provided
    InvalidStreamId(&'static str),
    /// A SETTINGS acknowledgment was not expected.
    UnexpectedSettingsAck,
    /// A required pseudo-header is missing.
    MissingPseudo(&'static str),
    /// A pseudo-header is not valid in this message.
    UnexpectedPseudo(&'static str),
    /// A WINDOW_UPDATE increment was zero.
    ZeroWindowUpdateValue,
    /// A flow-control window overflowed.
    WindowValueOverflow,
    /// The peer exceeded the concurrent stream limit.
    ConcurrencyOverflow,
    /// The peer exceeded the rapid-reset limit.
    StreamResetsLimit,
    /// Keep-alive ping timed out.
    KeepaliveTimeout,
    /// Frame reading timed out.
    ReadTimeout,
}

/// The debug form of a text: in quotes, with special characters escaped.
pub uninterp spec fn debug_text(s: Seq<char>) -> Seq<char>;

/// `<str as std::fmt::Debug>::fmt`: the debug form of a text, which depends on
/// nothing but the text.
#[verifier::external_body]
fn debug_string(s: &str) -> (r: String)
    ensures
        r@ == debug_text(s@),
{
    format!("{s:?}")
}

/// The decimal digits of a number.
pub open spec fn decimal(n: nat) -> Seq<u8>
    decreases n,
{
    if n < 10 {
        seq![(0x30 + n) as u8]
    } else {
        decimal(n / 10).push((0x30 + n % 10) as u8)
    }
}

/// Appends the decimal digits of a number.
fn put_decimal(dst: &mut Vec<u8>, n: u32)
    ensures
        final(dst)@ == old(dst)@ + decimal(n as nat),
    decreases n,
{
    if n >= 10 {
        put_decimal(dst, n / 10);
    }
    dst.push(0x30 + (n % 10) as u8);
    assert(dst@ =~= old(dst)@ + decimal(n as nat));
}

/// A label with a text behind it.
pub fn labeled(label: &str, text: &str) -> (r: Vec<u8>)
    ensures
        r@ == http::text_bytes(label@) + http::text_bytes(text@),
{
    let mut data = bytes_of(label);
    data.extend_from_slice(text.as_bytes());
    data
}

impl ConnectionError {
    /// The reason that the peer is given.
    pub open spec fn goaway_reason(self) -> Reason {
        match self {
            ConnectionError::GoAway(reason) => reason,
            ConnectionError::StreamClosed(_, _) => Reason::STREAM_CLOSED,
            ConnectionError::WindowValueOverflow => Reason::FLOW_CONTROL_ERROR,
            ConnectionError::ConcurrencyOverflow => Reason::FLOW_CONTROL_ERROR,
            ConnectionError::StreamResetsLimit => Reason::FLOW_CONTROL_ERROR,
            ConnectionError::KeepaliveTimeout => Reason::NO_ERROR,
            ConnectionError::ReadTimeout => Reason::NO_ERROR,
            _ => Reason::PROTOCOL_ERROR,
        }
    }

    /// What the peer is told beside the reason.
    pub open spec fn goaway_data(self) -> Seq<u8> {
        match self {
            ConnectionError::GoAway(_) => Seq::empty(),
            ConnectionError::Encoder(_) => http::text_bytes("Error during frame encoding"@),
            ConnectionError::Decoder(_) => http::text_bytes("Error during frame decoding"@),
            ConnectionError::MissingPseudo(s) => http::text_bytes("Missing pseudo header "@)
                + http::text_bytes(debug_text(s@)),
            ConnectionError::UnexpectedPseudo(s) => http::text_bytes("Unexpected pseudo header "@)
                + http::text_bytes(debug_text(s@)),
            ConnectionError::UnknownStream(_) => http::text_bytes("Unknown stream"@),
            ConnectionError::InvalidStreamId(_) => http::text_bytes(
                "An invalid stream identifier was provided"@,
            ),
            ConnectionError::StreamClosed(s, _) => http::text_bytes("StreamId("@) + decimal(
                s.0 as nat,
            ) + http::text_bytes(") is closed"@),
            ConnectionError::UnexpectedSettingsAck => http::text_bytes(
                "Received unexpected settings ack"@,
            ),
            ConnectionError::ZeroWindowUpdateValue => http::text_bytes(
                "Zero value for window update frame is not allowed"@,
            ),
            ConnectionError::WindowValueOverflow => http::text_bytes(
                "Updated value for window is overflowed"@,
            ),
            ConnectionError::ConcurrencyOverflow => http::text_bytes(
                "Max concurrent streams count achieved"@,
            ),
            ConnectionError::StreamResetsLimit => http::text_bytes(
                "Stream rapid reset count achieved"@,
            ),
            ConnectionError::KeepaliveTimeout => http::text_bytes("Keep-alive timeout"@),
            ConnectionError::ReadTimeout => http::text_bytes("Frame read timeout"@),
        }
    }

    /// The frame that ends the connection.
    pub open spec fn goaway(self) -> GoAwayView {
        GoAwayView {
            last_stream_id: StreamId(0),
            error_code: self.goaway_reason(),
            data: self.goaway_data(),
        }
    }

    /// Converts this error into a `GOAWAY` frame for connection shutdown.
    pub fn to_goaway(&self) -> (r: GoAway)
        ensures
            r@ == self.goaway(),
    {
        match self {
            ConnectionError::GoAway(reason) => GoAway::new(*reason),
            ConnectionError::Encoder(_) => GoAway::new(Reason::PROTOCOL_ERROR).set_data(
                bytes_of("Error during frame encoding"),
            ),
            ConnectionError::Decoder(_) => GoAway::new(Reason::PROTOCOL_ERROR).set_data(
                bytes_of("Error during frame decoding"),
            ),
            ConnectionError::MissingPseudo(s) => {
                let text = debug_string(s);
                GoAway::new(Reason::PROTOCOL_ERROR).set_data(
                    labeled("Missing pseudo header ", text.as_str()),
                )
            },
            ConnectionError::UnexpectedPseudo(s) => {
                let text = debug_string(s);
                GoAway::new(Reason::PROTOCOL_ERROR).set_data(
                    labeled("Unexpected pseudo header ", text.as_str()),
                )
            },
            ConnectionError::UnknownStream(_) => GoAway::new(Reason::PROTOCOL_ERROR).set_data(
                bytes_of("Unknown stream"),
            ),
            ConnectionError::InvalidStreamId(_) => GoAway::new(Reason::PROTOCOL_ERROR).set_data(
                bytes_of("An invalid stream identifier was provided"),
            ),
            ConnectionError::StreamClosed(s, _) => {
                let mut data = bytes_of("StreamId(");
                put_decimal(&mut data, s.0);
                data.extend_from_slice(") is closed".as_bytes());
                let r = GoAway::new(Reason::STREAM_CLOSED).set_data(data);
                assert(r@.data =~= self.goaway_data());
                r
            },
            ConnectionError::UnexpectedSettingsAck => GoAway::new(
                Reason::PROTOCOL_ERROR,
            ).set_data(bytes_of("Received unexpected settings ack")),
            ConnectionError::ZeroWindowUpdateValue => GoAway::new(
                Reason::PROTOCOL_ERROR,
            ).set_data(bytes_of("Zero value for window update frame is not allowed")),
            ConnectionError::WindowValueOverflow => GoAway::new(
                Reason::FLOW_CONTROL_ERROR,
            ).set_data(bytes_of("Updated value for window is overflowed")),
            ConnectionError::ConcurrencyOverflow => GoAway::new(
                Reason::FLOW_CONTROL_ERROR,
            ).set_data(bytes_of("Max concurrent streams count achieved")),
            ConnectionError::StreamResetsLimit => GoAway::new(Reason::FLOW_CONTROL_ERROR).set_data(
                bytes_of("Stream rapid reset count achieved"),
            ),
            ConnectionError::KeepaliveTimeout => GoAway::new(Reason::NO_ERROR).set_data(
                bytes_of("Keep-alive timeout"),
            ),
            ConnectionError::ReadTimeout => GoAway::new(Reason::NO_ERROR).set_data(
                bytes_of("Frame read timeout"),
            ),
        }
    }

    /// A short name of the error.
    pub open spec fn spec_signature(self) -> Seq<char> {
        match self {
            ConnectionError::GoAway(_) => "h2-conn-GoAway"@,
            ConnectionError::UnknownStream(_) => "h2-conn-UnknownStream"@,
            ConnectionError::Encoder(_) => "h2-conn-Encoder"@,
            ConnectionError::Decoder(_) => "h2-conn-Decoder"@,
            ConnectionError::StreamClosed(_, _) => "h2-conn-StreamClosed"@,
            ConnectionError::InvalidStreamId(_) => "h2-conn-InvalidStreamId"@,
            ConnectionError::UnexpectedSettingsAck => "h2-conn-UnexpectedSettingsAck"@,
            ConnectionError::MissingPseudo(_) => "h2-conn-MissingPseudo"@,
            ConnectionError::UnexpectedPseudo(_) => "h2-conn-UnexpectedPseudo"@,
            ConnectionError::ZeroWindowUpdateValue => "h2-conn-ZeroWindowUpdateValue"@,
            ConnectionError::WindowValueOverflow => "h2-conn-WindowValueOverflow"@,
            ConnectionError::ConcurrencyOverflow => "h2-conn-ConcurrencyOverflow"@,
            ConnectionError::StreamResetsLimit => "h2-conn-StreamResetsLimit"@,
            ConnectionError::KeepaliveTimeout => "h2-conn-KeepaliveTimeout"@,
            ConnectionError::ReadTimeout => "h2-conn-ReadTimeout"@,
        }
    }

    pub fn signature(&self) -> (r: &'static str)
        ensures
            r@ == self.spec_signature(),
    {
        match self {
            ConnectionError::GoAway(_) => "h2-conn-GoAway",
            ConnectionError::UnknownStream(_) => "h2-conn-UnknownStream",
            ConnectionError::Encoder(_) => "h2-conn-Encoder",
            ConnectionError::Decoder(_) => "h2-conn-Decoder",
            ConnectionError::StreamClosed(_, _) => "h2-conn-StreamClosed",
            ConnectionError::InvalidStreamId(_) => "h2-conn-InvalidStreamId",
            ConnectionError::UnexpectedSettingsAck => "h2-conn-UnexpectedSettingsAck",
            ConnectionError::MissingPseudo(_) => "h2-conn-MissingPseudo",
            ConnectionError::UnexpectedPseudo(_) => "h2-conn-UnexpectedPseudo",
            ConnectionError::ZeroWindowUpdateValue => "h2-conn-ZeroWindowUpdateValue",
            ConnectionError::WindowValueOverflow => "h2-conn-WindowValueOverflow",
            ConnectionError::ConcurrencyOverflow => "h2-conn-ConcurrencyOverflow",
            ConnectionError::StreamResetsLimit => "h2-conn-StreamResetsLimit",
            ConnectionError::KeepaliveTimeout => "h2-conn-KeepaliveTimeout",
            ConnectionError::ReadTimeout => "h2-conn-ReadTimeout",
        }
    }
}

/// A stream error and the stream that it happened on.
#[derive(Debug, Copy, Clone)]
pub struct StreamErrorInner {
    pub kind: StreamError,
    pub stream: StreamRef,
}

impl StreamErrorInner {
    pub fn new(stream: StreamRef, kind: StreamError) -> (r: StreamErrorInner)
        ensures
            r == (StreamErrorInner { kind, stream }),
    {
        StreamErrorInner { kind, stream }
    }

    pub fn into_inner(self) -> (r: (StreamRef, StreamError))
        ensures
            r == (self.stream, self.kind),
    {
        (self.stream, self.kind)
    }
}

/// HTTP/2 stream-level protocol error.
#[derive(Debug, Copy, Clone, PartialEq, Eq)]
pub enum StreamError {
    /// A frame or operation is invalid for an idle stream.
    Idle(&'static str),
    /// The stream is closed.
    Closed,
    /// The stream flow-control window overflowed.
    WindowOverflowed,
    /// A stream WINDOW_UPDATE increment was zero.
    WindowZeroUpdateValue,
    /// Trailers were received without END_STREAM.
    TrailersWithoutEos,
    /// The content-length header is invalid.
    InvalidContentLength,
    /// Payload size does not match the content-length header.
    WrongPayloadLength,
    /// A HEAD response contained payload bytes.
    NonEmptyPayload,
    /// Waiting for send capacity timed out.
    CapacityTimeout,
    /// The stream was reset with the specified reason.
    Reset(Reason),
}

impl StreamError {
    /// The reason with which the stream is reset.
    pub open spec fn spec_reason(self) -> Reason {
        match self {
            StreamError::Closed => Reason::STREAM_CLOSED,
            StreamError::WindowOverflowed => Reason::FLOW_CONTROL_ERROR,
            StreamError::CapacityTimeout => Reason::FLOW_CONTROL_ERROR,
            StreamError::Reset(r) => r,
            _ => Reason::PROTOCOL_ERROR,
        }
    }

    pub fn reason(&self) -> (r: Reason)
        ensures
            r == self.spec_reason(),
    {
        match self {
            StreamError::Closed => Reason::STREAM_CLOSED,
            StreamError::WindowOverflowed => Reason::FLOW_CONTROL_ERROR,
            StreamError::CapacityTimeout => Reason::FLOW_CONTROL_ERROR,
            StreamError::Idle(_) => Reason::PROTOCOL_ERROR,
            StreamError::WindowZeroUpdateValue => Reason::PROTOCOL_ERROR,
            StreamError::TrailersWithoutEos => Reason::PROTOCOL_ERROR,
            StreamError::InvalidContentLength => Reason::PROTOCOL_ERROR,
            StreamError::WrongPayloadLength => Reason::PROTOCOL_ERROR,
            StreamError::NonEmptyPayload => Reason::PROTOCOL_ERROR,
            StreamError::Reset(r) => *r,
        }
    }

    /// A short name of the error.
    pub open spec fn spec_signature(self) -> Seq<char> {
        match self {
            StreamError::Idle(_) => "h2-stream-Idle"@,
            StreamError::Closed => "h2-stream-Closed"@,
            StreamError::WindowOverflowed => "h2-stream-WindowOverflowed"@,
            StreamError::WindowZeroUpdateValue => "h2-stream-WindowZeroUpdateValue"@,
            StreamError::TrailersWithoutEos => "h2-stream-TrailersWithoutEos"@,
            StreamError::InvalidContentLength => "h2-stream-InvalidContentLength"@,
            StreamError::WrongPayloadLength => "h2-stream-WrongPayloadLength"@,
            StreamError::NonEmptyPayload => "h2-stream-NonEmptyPayload"@,
            StreamError::CapacityTimeout => "h2-stream-CapacityTimeout"@,
            StreamError::Reset(_) => "h2-stream-Reset"@,
        }
    }

    pub fn signature(&self) -> (r: &'static str)
        ensures
            r@ == self.spec_signature(),
    {
        match self {
            StreamError::Idle(_) => "h2-stream-Idle",
            StreamError::Closed => "h2-stream-Closed",
            StreamError::WindowOverflowed => "h2-stream-WindowOverflowed",
            StreamError::WindowZeroUpdateValue => "h2-stream-WindowZeroUpdateValue",
            StreamError::TrailersWithoutEos => "h2-stream-TrailersWithoutEos",
            StreamError::InvalidContentLength => "h2-stream-InvalidContentLength",
            StreamError::WrongPayloadLength => "h2-stream-WrongPayloadLength",
            StreamError::NonEmptyPayload => "h2-stream-NonEmptyPayload",
            StreamError::CapacityTimeout => "h2-stream-CapacityTimeout",
            StreamError::Reset(_) => "h2-stream-Reset",
        }
    }
}

/// Errors returned by stream and connection operations.
#[derive(Debug, Copy, Clone, PartialEq, Eq)]
pub enum OperationError {
    /// Stream-level protocol error.
    Stream(StreamError),
    /// Connection-level protocol error.
    Connection(ConnectionError),
    /// Cannot process operation for idle stream
    Idle,
    /// Cannot process operation for stream in payload state
    Payload,
    /// Stream is closed
    Closed(Option<Reason>),
    /// Stream has been reset from the peer
    RemoteReset(Reason),
    /// Stream has been reset from local side
    LocalReset(Reason),
    /// The stream ID space is overflowed
    ///
    /// A new connection is needed.
    OverflowedStreamId,
    /// Disconnecting
    Disconnecting,
    /// Disconnected
    Disconnected,
}

impl OperationError {
    /// A short name of the error.
    pub open spec fn spec_signature(self) -> Seq<char> {
        match self {
            OperationError::Stream(err) => err.spec_signature(),
            OperationError::Connection(err) => err.spec_signature(),
            OperationError::Idle => "h2-oper-Idle"@,
            OperationError::Payload => "h2-oper-Payload"@,
            OperationError::Closed(_) => "h2-oper-Closed"@,
            OperationError::RemoteReset(_) => "h2-oper-RemoteReset"@,
            OperationError::LocalReset(_) => "h2-oper-LocalReset"@,
            OperationError::OverflowedStreamId => "h2-oper-OverflowedStreamId"@,
            OperationError::Disconnecting => "h2-oper-Disconnecting"@,
            OperationError::Disconnected => "h2-oper-Disconnected"@,
        }
    }

    pub fn signature(&self) -> (r: &'static str)
        ensures
            r@ == self.spec_signature(),
    {
        match self {
            OperationError::Stream(err) => err.signature(),
            OperationError::Connection(err) => err.signature(),
            OperationError::Idle => "h2-oper-Idle",
            OperationError::Payload => "h2-oper-Payload",
            OperationError::Closed(_) => "h2-oper-Closed",
            OperationError::RemoteReset(_) => "h2-oper-RemoteReset",
            OperationError::LocalReset(_) => "h2-oper-LocalReset",
            OperationError::OverflowedStreamId => "h2-oper-OverflowedStreamId",
            OperationError::Disconnecting => "h2-oper-Disconnecting",
            OperationError::Disconnected => "h2-oper-Disconnected",
        }
    }
}

} // verus!
