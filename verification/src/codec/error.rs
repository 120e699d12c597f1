use vstd::prelude::*;

use crate::codec::length_delimited::LengthDelimitedCodecError;
use crate::frame::FrameError;

verus! {

/// Why a frame was not written.
#[derive(Copy, Clone, Debug, PartialEq, Eq, Structural)]
pub enum EncoderError {
    /// Max size exceeded
    MaxSizeExceeded,
}

impl From<LengthDelimitedCodecError> for FrameError {
    fn from(_err: LengthDelimitedCodecError) -> (r: FrameError) {
        FrameError::MaxFrameSize
    }
}

impl vstd::std_specs::convert::FromSpecImpl<LengthDelimitedCodecError> for FrameError {
    open spec fn obeys_from_spec() -> bool {
        true
    }

    open spec fn from_spec(_err: LengthDelimitedCodecError) -> FrameError {
        FrameError::MaxFrameSize
    }
}

} // verus!
