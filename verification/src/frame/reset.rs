use vstd::prelude::*;

use crate::frame::{reason, wire, FrameError, Head, Kind, Reason, StreamId, HEADER_LEN};

verus! {

/// RST_STREAM frame: ends one stream.
#[derive(Debug, Copy, Clone, Eq, PartialEq, Structural)]
pub struct Reset {
    pub stream_id: StreamId,
    pub error_code: Reason,
}

impl Reset {
    pub open spec fn wf(self) -> bool {
        self.stream_id.wf() && self.error_code.wf()
    }

    /// The frame that belongs to a head and the payload behind it.
    pub open spec fn loaded(head: Head, payload: Seq<u8>) -> Result<Reset, FrameError> {
        if payload.len() != 4 {
            Err(FrameError::InvalidPayloadLength)
        } else {
            Ok(
                Reset {
                    stream_id: head.stream_id,
                    error_code: Reason::of_code(wire::be32(payload) as u32),
                },
            )
        }
    }

    pub open spec fn head(self) -> Head {
        Head { kind: Kind::Reset, flag: 0, stream_id: self.stream_id }
    }

    /// The frame on the wire.
    pub open spec fn bytes(self) -> Seq<u8> {
        self.head().bytes(4) + wire::be32_bytes(self.error_code.spec_code())
    }

    pub fn new(stream_id: StreamId, error: Reason) -> (r: Reset)
        ensures
            r == (Reset { stream_id, error_code: error }),
    {
        Reset { stream_id, error_code: error }
    }

    pub fn stream_id(&self) -> (r: StreamId)
        ensures
            r == self.stream_id,
    {
        self.stream_id
    }

    pub fn reason(&self) -> (r: Reason)
        ensures
            r == self.error_code,
    {
        self.error_code
    }

    /// Builds the frame from its head and the bytes behind the head.
    pub fn load(head: Head, payload: &[u8]) -> (r: Result<Reset, FrameError>)
        ensures
            r == Reset::loaded(head, payload@),
    {
        if payload.len() != 4 {
            return Err(FrameError::InvalidPayloadLength);
        }
        let error_code: u32 = wire::get_u32(payload, 0);
        assert(payload@.skip(0) =~= payload@);

        Ok(Reset { stream_id: head.stream_id(), error_code: Reason::from(error_code) })
    }

    pub fn encode(&self, dst: &mut Vec<u8>)
        ensures
            final(dst)@ == old(dst)@ + self.bytes(),
    {
        let head = Head::new(Kind::Reset, 0, self.stream_id);
        head.encode(4, dst);
        wire::put_u32(dst, self.error_code.code());
        assert(dst@ =~= old(dst)@ + self.bytes());
    }
}

/// A RST_STREAM frame that was written reads back as itself.
pub proof fn reset_round_trip(frame: Reset)
    requires
        frame.wf(),
    ensures
        frame.bytes().len() == HEADER_LEN + 4,
        Reset::loaded(Head::parsed(frame.bytes()), frame.bytes().skip(HEADER_LEN as int)) == Ok::<
            Reset,
            FrameError,
        >(frame),
{
    let tail = wire::be32_bytes(frame.error_code.spec_code());
    crate::frame::head::head_round_trip(frame.head(), 4, tail);
    wire::be32_inverse(frame.error_code.spec_code(), Seq::empty());
    reason::reason_code_inverse(frame.error_code, 0);
    assert(tail + Seq::<u8>::empty() =~= tail);
    assert(frame.bytes().skip(HEADER_LEN as int) =~= tail);
}

} // verus!
