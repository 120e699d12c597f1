use vstd::prelude::*;

use crate::frame::{util, FrameError, Head, Kind, StreamId, HEADER_LEN};

verus! {

pub const ACK_FLAG: u8 = 0x1;

#[derive(Clone, Copy, Debug)]
pub struct Ping {
    pub ack: bool,
    pub payload: [u8; 8],
}

/// What a PING frame says.
#[verifier::ext_equal]
pub struct PingView {
    pub ack: bool,
    pub payload: Seq<u8>,
}

impl View for Ping {
    type V = PingView;

    open spec fn view(&self) -> PingView {
        PingView { ack: self.ack, payload: self.payload@ }
    }
}

impl PingView {
    pub open spec fn wf(self) -> bool {
        self.payload.len() == 8
    }

    /// The frame that belongs to a head and the payload behind it.
    pub open spec fn loaded(head: Head, payload: Seq<u8>) -> Result<PingView, FrameError> {
        if head.stream_id.0 != 0 {
            Err(FrameError::InvalidStreamId)
        } else if payload.len() != 8 {
            Err(FrameError::BadFrameSize)
        } else {
            Ok(PingView { ack: head.flag & ACK_FLAG != 0, payload })
        }
    }

    pub open spec fn head(self) -> Head {
        Head {
            kind: Kind::Ping,
            flag: if self.ack {
                ACK_FLAG
            } else {
                0
            },
            stream_id: StreamId(0),
        }
    }

    /// The frame on the wire.
    pub open spec fn bytes(self) -> Seq<u8> {
        self.head().bytes(8) + self.payload
    }
}

impl Ping {
    pub fn new(payload: [u8; 8]) -> (r: Ping)
        ensures
            r@ == (PingView { ack: false, payload: payload@ }),
    {
        Ping { ack: false, payload }
    }

    /// The answer to a PING frame with this payload.
    pub fn pong(payload: [u8; 8]) -> (r: Ping)
        ensures
            r@ == (PingView { ack: true, payload: payload@ }),
    {
        Ping { ack: true, payload }
    }

    pub fn is_ack(&self) -> (r: bool)
        ensures
            r == self@.ack,
    {
        self.ack
    }

    pub fn payload(&self) -> (r: &[u8; 8])
        ensures
            r@ == self@.payload,
    {
        &self.payload
    }

    pub fn into_payload(self) -> (r: [u8; 8])
        ensures
            r@ == self@.payload,
    {
        self.payload
    }

    /// Builds a `Ping` frame from a raw frame.
    pub fn load(head: Head, bytes: &[u8]) -> (r: Result<Ping, FrameError>)
        ensures
            util::viewed(r) == PingView::loaded(head, bytes@),
    {
        // PING frames are not associated with any individual stream. If a PING
        // frame is received with a stream identifier field value other than
        // 0x0, the recipient MUST respond with a connection error
        // (Section 5.4.1) of type PROTOCOL_ERROR.
        if !head.stream_id().is_zero() {
            return Err(FrameError::InvalidStreamId);
        }
        // In addition to the frame header, PING frames MUST contain 8 octets of opaque
        // data in the payload.
        if bytes.len() != 8 {
            return Err(FrameError::BadFrameSize);
        }
        let payload: [u8; 8] = [
            bytes[0],
            bytes[1],
            bytes[2],
            bytes[3],
            bytes[4],
            bytes[5],
            bytes[6],
            bytes[7],
        ];
        assert(payload@ =~= bytes@);

        // The PING frame defines the following flags:
        //
        // ACK (0x1): When set, bit 0 indicates that this PING frame is a PING
        //    response. An endpoint MUST set this flag in PING responses. An
        //    endpoint MUST NOT respond to PING frames containing this flag.
        let ack = head.flag() & ACK_FLAG != 0;

        Ok(Ping { ack, payload })
    }

    pub fn encode(&self, dst: &mut Vec<u8>)
        ensures
            final(dst)@ == old(dst)@ + self@.bytes(),
    {
        let flags: u8 = if self.ack {
            ACK_FLAG
        } else {
            0
        };
        let head = Head::new(Kind::Ping, flags, StreamId::zero());

        head.encode(8, dst);
        let mut i: usize = 0;
        let ghost before = dst@;
        while i < 8
            invariant
                i <= 8,
                dst@ =~= before + self.payload@.take(i as int),
            decreases 8 - i,
        {
            dst.push(self.payload[i]);
            i += 1;
        }
        assert(dst@ =~= old(dst)@ + self@.bytes());
    }
}

/// A PING frame that was written reads back as itself.
pub proof fn ping_round_trip(frame: PingView)
    requires
        frame.wf(),
    ensures
        frame.bytes().len() == HEADER_LEN + 8,
        PingView::loaded(Head::parsed(frame.bytes()), frame.bytes().skip(HEADER_LEN as int)) == Ok::<
            PingView,
            FrameError,
        >(frame),
{
    crate::frame::head::head_round_trip(frame.head(), 8, frame.payload);
    assert(frame.bytes().skip(HEADER_LEN as int) =~= frame.payload);
    assert(1u8 & 1u8 != 0 && 0u8 & 1u8 == 0) by (bit_vector);
}

} // verus!
