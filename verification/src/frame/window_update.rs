use vstd::prelude::*;

use crate::frame::{wire, FrameError, Head, Kind, StreamId, HEADER_LEN};

verus! {

/// One more than the largest increment: the most significant bit is reserved.
pub const SIZE_INCREMENT_LIMIT: u32 = 0x8000_0000;

#[derive(Debug, Copy, Clone, Eq, PartialEq, Structural)]
pub struct WindowUpdate {
    pub stream_id: StreamId,
    pub size_increment: u32,
}

impl WindowUpdate {
    pub open spec fn wf(self) -> bool {
        self.stream_id.wf() && self.size_increment < SIZE_INCREMENT_LIMIT
    }

    /// The frame that belongs to a head and the payload behind it.
    pub open spec fn loaded(head: Head, payload: Seq<u8>) -> Result<WindowUpdate, FrameError> {
        if payload.len() != 4 {
            Err(FrameError::BadFrameSize)
        } else {
            Ok(
                WindowUpdate {
                    stream_id: head.stream_id,
                    size_increment: (wire::be32(payload) % 0x8000_0000) as u32,
                },
            )
        }
    }

    pub open spec fn head(self) -> Head {
        Head { kind: Kind::WindowUpdate, flag: 0, stream_id: self.stream_id }
    }

    /// The frame on the wire.
    pub open spec fn bytes(self) -> Seq<u8> {
        self.head().bytes(4) + wire::be32_bytes(self.size_increment)
    }

    pub fn new(stream_id: StreamId, size_increment: u32) -> (r: WindowUpdate)
        ensures
            r == (WindowUpdate { stream_id, size_increment }),
    {
        WindowUpdate { stream_id, size_increment }
    }

    pub fn stream_id(&self) -> (r: StreamId)
        ensures
            r == self.stream_id,
    {
        self.stream_id
    }

    /// The increment as a signed number: its top bit is the sign.
    pub fn size_increment(&self) -> (r: i32)
        ensures
            r == (if self.size_increment < SIZE_INCREMENT_LIMIT {
                self.size_increment as int
            } else {
                self.size_increment - 0x1_0000_0000
            }),
    {
        let n: u32 = self.size_increment;
        assert(n >= 0x8000_0000 ==> n as i32 == n - 0x1_0000_0000) by (bit_vector);
        self.size_increment as i32
    }

    /// Builds a `WindowUpdate` frame from a raw frame.
    pub fn load(head: Head, payload: &[u8]) -> (r: Result<WindowUpdate, FrameError>)
        ensures
            r == WindowUpdate::loaded(head, payload@),
            head.wf() ==> (r matches Ok(frame) ==> frame.wf()),
    {
        if payload.len() != 4 {
            return Err(FrameError::BadFrameSize);
        }
        // Clear the most significant bit, as that is reserved and MUST be ignored
        // when received.
        let size_increment: u32 = wire::get_u32(payload, 0) % SIZE_INCREMENT_LIMIT;
        assert(payload@.skip(0) =~= payload@);

        Ok(WindowUpdate { stream_id: head.stream_id(), size_increment })
    }

    pub fn encode(&self, dst: &mut Vec<u8>)
        ensures
            final(dst)@ == old(dst)@ + self.bytes(),
    {
        let head = Head::new(Kind::WindowUpdate, 0, self.stream_id);
        head.encode(4, dst);
        wire::put_u32(dst, self.size_increment);
        assert(dst@ =~= old(dst)@ + self.bytes());
    }
}

/// A WINDOW_UPDATE frame that was written reads back as itself.
pub proof fn window_update_round_trip(frame: WindowUpdate)
    requires
        frame.wf(),
    ensures
        frame.bytes().len() == HEADER_LEN + 4,
        WindowUpdate::loaded(
            Head::parsed(frame.bytes()),
            frame.bytes().skip(HEADER_LEN as int),
        ) == Ok::<WindowUpdate, FrameError>(frame),
{
    let tail = wire::be32_bytes(frame.size_increment);
    crate::frame::head::head_round_trip(frame.head(), 4, tail);
    wire::be32_inverse(frame.size_increment, Seq::empty());
    assert(tail + Seq::<u8>::empty() =~= tail);
    assert(frame.bytes().skip(HEADER_LEN as int) =~= tail);
}

} // verus!
