use vstd::prelude::*;

verus! {

/// HTTP/2 error codes.
#[allow(non_camel_case_types)]
#[derive(Debug, Copy, Clone, PartialEq, Eq, Hash, Structural)]
pub enum Reason {
    /// The associated condition is not a result of an error.
    NO_ERROR,
    /// An unspecific protocol error.
    PROTOCOL_ERROR,
    /// An unexpected internal error.
    INTERNAL_ERROR,
    /// The peer violated the flow-control protocol.
    FLOW_CONTROL_ERROR,
    /// A settings acknowledgement was not received in time.
    SETTINGS_TIMEOUT,
    /// A frame was received after a stream was half-closed.
    STREAM_CLOSED,
    /// A frame with an invalid size.
    FRAME_SIZE_ERROR,
    /// The stream was refused before any application processing.
    REFUSED_STREAM,
    /// The stream is no longer needed.
    CANCEL,
    /// The header compression context cannot be maintained.
    COMPRESSION_ERROR,
    /// The connection of a CONNECT request was reset or closed abnormally.
    CONNECT_ERROR,
    /// The peer exhibits a behaviour that might generate excessive load.
    ENHANCE_YOUR_CALM,
    /// The transport does not meet minimum security requirements.
    INADEQUATE_SECURITY,
    /// HTTP/1.1 is required.
    HTTP_1_1_REQUIRED,
    /// Any other code.
    Unknown(u32),
}

impl Reason {
    /// The code on the wire.
    pub open spec fn spec_code(self) -> u32 {
        match self {
            Reason::NO_ERROR => 0,
            Reason::PROTOCOL_ERROR => 1,
            Reason::INTERNAL_ERROR => 2,
            Reason::FLOW_CONTROL_ERROR => 3,
            Reason::SETTINGS_TIMEOUT => 4,
            Reason::STREAM_CLOSED => 5,
            Reason::FRAME_SIZE_ERROR => 6,
            Reason::REFUSED_STREAM => 7,
            Reason::CANCEL => 8,
            Reason::COMPRESSION_ERROR => 9,
            Reason::CONNECT_ERROR => 10,
            Reason::ENHANCE_YOUR_CALM => 11,
            Reason::INADEQUATE_SECURITY => 12,
            Reason::HTTP_1_1_REQUIRED => 13,
            Reason::Unknown(code) => code,
        }
    }

    /// The reason that a code stands for.
    pub open spec fn of_code(code: u32) -> Reason {
        if code == 0 {
            Reason::NO_ERROR
        } else if code == 1 {
            Reason::PROTOCOL_ERROR
        } else if code == 2 {
            Reason::INTERNAL_ERROR
        } else if code == 3 {
            Reason::FLOW_CONTROL_ERROR
        } else if code == 4 {
            Reason::SETTINGS_TIMEOUT
        } else if code == 5 {
            Reason::STREAM_CLOSED
        } else if code == 6 {
            Reason::FRAME_SIZE_ERROR
        } else if code == 7 {
            Reason::REFUSED_STREAM
        } else if code == 8 {
            Reason::CANCEL
        } else if code == 9 {
            Reason::COMPRESSION_ERROR
        } else if code == 10 {
            Reason::CONNECT_ERROR
        } else if code == 11 {
            Reason::ENHANCE_YOUR_CALM
        } else if code == 12 {
            Reason::INADEQUATE_SECURITY
        } else if code == 13 {
            Reason::HTTP_1_1_REQUIRED
        } else {
            Reason::Unknown(code)
        }
    }

    /// A code with a name of its own is not written as an unknown one.
    pub open spec fn wf(self) -> bool {
        self matches Reason::Unknown(code) ==> code > 13
    }

    pub fn code(self) -> (r: u32)
        ensures
            r == self.spec_code(),
    {
        match self {
            Reason::NO_ERROR => 0,
            Reason::PROTOCOL_ERROR => 1,
            Reason::INTERNAL_ERROR => 2,
            Reason::FLOW_CONTROL_ERROR => 3,
            Reason::SETTINGS_TIMEOUT => 4,
            Reason::STREAM_CLOSED => 5,
            Reason::FRAME_SIZE_ERROR => 6,
            Reason::REFUSED_STREAM => 7,
            Reason::CANCEL => 8,
            Reason::COMPRESSION_ERROR => 9,
            Reason::CONNECT_ERROR => 10,
            Reason::ENHANCE_YOUR_CALM => 11,
            Reason::INADEQUATE_SECURITY => 12,
            Reason::HTTP_1_1_REQUIRED => 13,
            Reason::Unknown(code) => code,
        }
    }
}

impl From<u32> for Reason {
    fn from(code: u32) -> (r: Reason) {
        match code {
            0 => Reason::NO_ERROR,
            1 => Reason::PROTOCOL_ERROR,
            2 => Reason::INTERNAL_ERROR,
            3 => Reason::FLOW_CONTROL_ERROR,
            4 => Reason::SETTINGS_TIMEOUT,
            5 => Reason::STREAM_CLOSED,
            6 => Reason::FRAME_SIZE_ERROR,
            7 => Reason::REFUSED_STREAM,
            8 => Reason::CANCEL,
            9 => Reason::COMPRESSION_ERROR,
            10 => Reason::CONNECT_ERROR,
            11 => Reason::ENHANCE_YOUR_CALM,
            12 => Reason::INADEQUATE_SECURITY,
            13 => Reason::HTTP_1_1_REQUIRED,
            _ => Reason::Unknown(code),
        }
    }
}

impl vstd::std_specs::convert::FromSpecImpl<u32> for Reason {
    open spec fn obeys_from_spec() -> bool {
        true
    }

    open spec fn from_spec(code: u32) -> Reason {
        Reason::of_code(code)
    }
}

/// A reason is recovered from its code, and a code from its reason.
pub proof fn reason_code_inverse(r: Reason, code: u32)
    requires
        r.wf(),
    ensures
        Reason::of_code(r.spec_code()) == r,
        Reason::of_code(code).spec_code() == code,
        Reason::of_code(code).wf(),
{
}

} // verus!
