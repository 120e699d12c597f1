use vstd::prelude::*;

use crate::frame::wire;

verus! {

/// One more than the largest stream identifier: identifiers have 31 bits.
pub const STREAM_ID_LIMIT: u32 = 0x8000_0000;

/// Identifier of a stream, a 31-bit number.
#[derive(Debug, Copy, Clone, PartialEq, Eq, Hash, Structural)]
pub struct StreamId(pub u32);

impl StreamId {
    /// The reserved bit is clear.
    pub open spec fn wf(self) -> bool {
        self.0 < STREAM_ID_LIMIT
    }

    /// The identifier that the first four bytes of `buf` hold, big endian and
    /// without the reserved bit.
    pub open spec fn parsed(buf: Seq<u8>) -> StreamId {
        StreamId((wire::be32(buf) % 0x8000_0000) as u32)
    }

    pub fn new(id: u32) -> (r: StreamId)
        requires
            id < STREAM_ID_LIMIT,
        ensures
            r == StreamId(id),
            r.wf(),
    {
        StreamId(id)
    }

    /// Reads an identifier off the first four bytes; the flag is the reserved bit.
    pub fn parse(buf: &[u8]) -> (r: (StreamId, bool))
        requires
            buf@.len() >= 4,
        ensures
            r.0 == StreamId::parsed(buf@),
            r.0.wf(),
            r.1 == (wire::be32(buf@) >= 0x8000_0000),
    {
        let n: u32 = wire::get_u32(buf, 0);
        assert(buf@.skip(0) =~= buf@);
        (StreamId(n % STREAM_ID_LIMIT), n >= STREAM_ID_LIMIT)
    }

    /// The connection as a whole.
    pub fn zero() -> (r: StreamId)
        ensures
            r == StreamId(0),
            r.wf(),
    {
        StreamId(0)
    }

    pub fn is_zero(self) -> (r: bool)
        ensures
            r == (self.0 == 0),
    {
        self.0 == 0
    }

    /// Clients open streams with odd identifiers.
    pub fn is_client_initiated(self) -> (r: bool)
        ensures
            r == (self.0 % 2 == 1),
    {
        self.0 % 2 == 1
    }

    /// Servers open streams with even identifiers other than zero.
    pub fn is_server_initiated(self) -> (r: bool)
        ensures
            r == (self.0 != 0 && self.0 % 2 == 0),
    {
        self.0 != 0 && self.0 % 2 == 0
    }

    /// The next identifier that the same side opens, unless they are used up.
    pub fn next_id(self) -> (r: Option<StreamId>)
        requires
            self.wf(),
        ensures
            match r {
                Some(id) => id.0 == self.0 + 2 && id.wf(),
                None => self.0 + 2 >= STREAM_ID_LIMIT,
            },
    {
        if self.0 < STREAM_ID_LIMIT - 2 {
            Some(StreamId(self.0 + 2))
        } else {
            None
        }
    }
}

} // verus!
