use vstd::prelude::*;

use crate::frame::StreamId;
use crate::hpack::DecoderError;

verus! {

/// Why a frame was refused.
#[derive(Debug, Copy, Clone, PartialEq, Eq, Structural)]
pub enum FrameError {
    /// The payload length does not fit the frame type.
    BadFrameSize,
    /// The padding is at least as long as the payload.
    TooMuchPadding,
    /// A setting is outside its range.
    InvalidSettingValue,
    /// The stream identifier does not fit the frame type.
    InvalidStreamId,
    /// The header block is well coded but not a valid message.
    MalformedMessage,
    /// A stream depends on itself.
    InvalidDependencyId,
    /// The payload length does not fit the frame type.
    InvalidPayloadLength,
    /// The payload of a SETTINGS frame is not a list of settings.
    InvalidPayloadAckSettings,
    /// The connection preface is not the expected one.
    InvalidPreface,
    /// The frame is longer than the receiver accepts.
    MaxFrameSize,
    /// Push is not supported.
    UnexpectedPushPromise,
    /// A header block holds more headers than the receiver accepts.
    TooManyHeaders(StreamId),
    /// The header block cannot be decompressed.
    Hpack(DecoderError),
    /// A header block was not continued as it should be.
    Continuation(ContinuationError),
}

/// Why a CONTINUATION frame, or its absence, was refused.
#[derive(Debug, Copy, Clone, PartialEq, Eq, Structural)]
pub enum ContinuationError {
    /// Another frame came where a CONTINUATION frame had to come.
    Expected,
    /// There is no header block to continue.
    Unexpected,
    /// The frame belongs to another stream than the open header block.
    UnknownStreamId,
    /// The buffered header block is too long.
    MaxLeftoverSize,
    /// Too many CONTINUATION frames for one header block.
    MaxContinuations,
    /// The continued header block is not a valid message.
    Malformed,
}

impl FrameError {
    /// The text of the error.
    pub open spec fn spec_message(self) -> Seq<char> {
        match self {
            FrameError::BadFrameSize => "Bad frame size"@,
            FrameError::TooMuchPadding => "Too much padding"@,
            FrameError::InvalidSettingValue => "Invalid setting value"@,
            FrameError::InvalidStreamId => "Invalid stream id"@,
            FrameError::MalformedMessage => "Malformed message"@,
            FrameError::InvalidDependencyId => "Invalid dependency id"@,
            FrameError::InvalidPayloadLength => "Invalid payload length"@,
            FrameError::InvalidPayloadAckSettings => "Invalid settings payload"@,
            FrameError::InvalidPreface => "Invalid preface"@,
            FrameError::MaxFrameSize => "Frame size exceeded"@,
            FrameError::UnexpectedPushPromise => "Unexpected push promise"@,
            FrameError::TooManyHeaders(_) => "Too many headers"@,
            FrameError::Hpack(_) => "Hpack decoder error"@,
            FrameError::Continuation(_) => "Continuation error"@,
        }
    }

    pub fn message(&self) -> (r: &'static str)
        ensures
            r@ == self.spec_message(),
    {
        match self {
            FrameError::BadFrameSize => "Bad frame size",
            FrameError::TooMuchPadding => "Too much padding",
            FrameError::InvalidSettingValue => "Invalid setting value",
            FrameError::InvalidStreamId => "Invalid stream id",
            FrameError::MalformedMessage => "Malformed message",
            FrameError::InvalidDependencyId => "Invalid dependency id",
            FrameError::InvalidPayloadLength => "Invalid payload length",
            FrameError::InvalidPayloadAckSettings => "Invalid settings payload",
            FrameError::InvalidPreface => "Invalid preface",
            FrameError::MaxFrameSize => "Frame size exceeded",
            FrameError::UnexpectedPushPromise => "Unexpected push promise",
            FrameError::TooManyHeaders(_) => "Too many headers",
            FrameError::Hpack(_) => "Hpack decoder error",
            FrameError::Continuation(_) => "Continuation error",
        }
    }
}

} // verus!
