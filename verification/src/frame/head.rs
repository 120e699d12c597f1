use vstd::prelude::*;

use crate::frame::{wire, StreamId, HEADER_LEN};

verus! {

/// Frame head: everything in the nine header bytes but the payload length.
#[derive(Debug, Copy, Clone, PartialEq, Eq, Structural)]
pub struct Head {
    pub kind: Kind,
    pub flag: u8,
    pub stream_id: StreamId,
}

/// Frame type.
#[derive(Debug, Copy, Clone, PartialEq, Eq, Structural)]
pub enum Kind {
    Data,
    Headers,
    Priority,
    Reset,
    Settings,
    PushPromise,
    Ping,
    GoAway,
    WindowUpdate,
    Continuation,
    Unknown,
}

// ===== impl Head =====

impl Head {
    /// What a frame header says, apart from its length.
    pub open spec fn parsed(header: Seq<u8>) -> Head {
        Head {
            kind: Kind::of_byte(header[3]),
            flag: header[4],
            stream_id: StreamId::parsed(header.skip(5)),
        }
    }

    /// The nine bytes in front of a payload of `payload_len` bytes.
    pub open spec fn bytes(self, payload_len: nat) -> Seq<u8> {
        wire::be24_bytes(payload_len) + seq![self.kind.spec_byte(), self.flag] + wire::be32_bytes(
            self.stream_id.0,
        )
    }

    pub open spec fn wf(self) -> bool {
        self.stream_id.wf()
    }

    pub fn new(kind: Kind, flag: u8, stream_id: StreamId) -> (r: Head)
        ensures
            r == (Head { kind, flag, stream_id }),
    {
        Head { kind, flag, stream_id }
    }

    /// Parse an HTTP/2 frame header
    pub fn parse(header: &[u8]) -> (r: Head)
        requires
            header@.len() >= HEADER_LEN,
        ensures
            r == Head::parsed(header@),
            r.wf(),
    {
        let (stream_id, _) = StreamId::parse(&header[5..header.len()]);
        assert(header@.subrange(5, header@.len() as int) =~= header@.skip(5));
        Head { stream_id, kind: Kind::new(header[3]), flag: header[4] }
    }

    pub fn stream_id(&self) -> (r: StreamId)
        ensures
            r == self.stream_id,
    {
        self.stream_id
    }

    pub fn kind(&self) -> (r: Kind)
        ensures
            r == self.kind,
    {
        self.kind
    }

    pub fn flag(&self) -> (r: u8)
        ensures
            r == self.flag,
    {
        self.flag
    }

    /// Writes the frame header of a payload of `payload_len` bytes. Of the length
    /// the three low bytes are written.
    pub fn encode(&self, payload_len: usize, dst: &mut Vec<u8>)
        ensures
            final(dst)@ == old(dst)@ + self.bytes(payload_len as nat),
    {
        dst.push((payload_len / 0x1_0000 % 0x100) as u8);
        dst.push((payload_len / 0x100 % 0x100) as u8);
        dst.push((payload_len % 0x100) as u8);
        dst.push(self.kind.byte());
        dst.push(self.flag);
        wire::put_u32(dst, self.stream_id.0);
        assert(dst@ =~= old(dst)@ + self.bytes(payload_len as nat));
    }
}

// ===== impl Kind =====

impl Kind {
    /// The frame type that a byte stands for.
    pub open spec fn of_byte(byte: u8) -> Kind {
        if byte == 0 {
            Kind::Data
        } else if byte == 1 {
            Kind::Headers
        } else if byte == 2 {
            Kind::Priority
        } else if byte == 3 {
            Kind::Reset
        } else if byte == 4 {
            Kind::Settings
        } else if byte == 5 {
            Kind::PushPromise
        } else if byte == 6 {
            Kind::Ping
        } else if byte == 7 {
            Kind::GoAway
        } else if byte == 8 {
            Kind::WindowUpdate
        } else if byte == 9 {
            Kind::Continuation
        } else {
            Kind::Unknown
        }
    }

    /// The byte on the wire.
    pub open spec fn spec_byte(self) -> u8 {
        match self {
            Kind::Data => 0,
            Kind::Headers => 1,
            Kind::Priority => 2,
            Kind::Reset => 3,
            Kind::Settings => 4,
            Kind::PushPromise => 5,
            Kind::Ping => 6,
            Kind::GoAway => 7,
            Kind::WindowUpdate => 8,
            Kind::Continuation => 9,
            Kind::Unknown => 10,
        }
    }

    pub fn new(byte: u8) -> (r: Kind)
        ensures
            r == Kind::of_byte(byte),
    {
        match byte {
            0 => Kind::Data,
            1 => Kind::Headers,
            2 => Kind::Priority,
            3 => Kind::Reset,
            4 => Kind::Settings,
            5 => Kind::PushPromise,
            6 => Kind::Ping,
            7 => Kind::GoAway,
            8 => Kind::WindowUpdate,
            9 => Kind::Continuation,
            _ => Kind::Unknown,
        }
    }

    pub fn byte(self) -> (r: u8)
        ensures
            r == self.spec_byte(),
    {
        match self {
            Kind::Data => 0,
            Kind::Headers => 1,
            Kind::Priority => 2,
            Kind::Reset => 3,
            Kind::Settings => 4,
            Kind::PushPromise => 5,
            Kind::Ping => 6,
            Kind::GoAway => 7,
            Kind::WindowUpdate => 8,
            Kind::Continuation => 9,
            Kind::Unknown => 10,
        }
    }
}

/// A frame header says the same whatever stands in its length field and behind it.
pub proof fn head_is_six_bytes(a: Seq<u8>, b: Seq<u8>)
    requires
        a.len() >= HEADER_LEN,
        b.len() >= HEADER_LEN,
        a.subrange(3, HEADER_LEN as int) == b.subrange(3, HEADER_LEN as int),
    ensures
        Head::parsed(a) == Head::parsed(b),
{
    let x = a.subrange(3, HEADER_LEN as int);
    let y = b.subrange(3, HEADER_LEN as int);
    assert forall|i: int| 3 <= i < HEADER_LEN implies a[i] == b[i] by {
        assert(a[i] == x[i - 3] && b[i] == y[i - 3]);
    }
    assert(wire::be32(a.skip(5)) == wire::be32(b.skip(5)));
}

/// A frame header that was written reads back as the same head, whatever the length
/// and whatever follows. A length that fits its field reads back as well.
pub proof fn head_round_trip(head: Head, payload_len: nat, rest: Seq<u8>)
    requires
        head.wf(),
    ensures
        head.bytes(payload_len).len() == HEADER_LEN,
        Head::parsed(head.bytes(payload_len) + rest) == head,
        payload_len < 0x100_0000 ==> wire::be24(head.bytes(payload_len) + rest) == payload_len,
{
    let s = head.bytes(payload_len) + rest;
    wire::be32_inverse(head.stream_id.0, rest);
    assert(s.skip(5) =~= wire::be32_bytes(head.stream_id.0) + rest);
    assert(s[3] == head.kind.spec_byte() && s[4] == head.flag);
    assert(s[0] == wire::be24_bytes(payload_len)[0]);
    assert(s[1] == wire::be24_bytes(payload_len)[1]);
    assert(s[2] == wire::be24_bytes(payload_len)[2]);
    assert(wire::be32(s.skip(5)) == head.stream_id.0);
}

} // verus!
