//! Frame a stream of bytes based on a length prefix
use vstd::prelude::*;

use crate::frame::util;

verus! {

/// Configure length delimited `LengthDelimitedCodec`s.
#[derive(Debug, Clone, Copy)]
pub struct Builder {
    /// Maximum frame length
    pub max_frame_len: usize,
    /// Number of bytes representing the field length
    pub length_field_len: usize,
    /// Adjust the length specified in the header field by this amount
    pub length_adjustment: isize,
    /// Total number of bytes to skip before reading the payload, if not set,
    /// `length_field_len`
    pub num_skip: Option<usize>,
}

/// An error when the number of bytes read is more than max frame length.
#[derive(Debug, Copy, Clone, PartialEq, Eq, Structural)]
pub enum LengthDelimitedCodecError {
    MaxSize,
    Adjusted,
}

/// A codec for frames delimited by a frame head specifying their lengths.
#[derive(Debug, Clone, Copy)]
pub struct LengthDelimitedCodec {
    /// Configuration values
    pub builder: Builder,
    /// Read state
    pub state: DecodeState,
}

#[derive(Debug, Clone, Copy, PartialEq, Eq, Structural)]
pub enum DecodeState {
    Head,
    Data(usize),
}

/// The number whose big-endian bytes are `bytes`.
pub open spec fn be_uint(bytes: Seq<u8>) -> nat
    decreases bytes.len(),
{
    if bytes.len() == 0 {
        0
    } else {
        be_uint(bytes.drop_last()) * 0x100 + bytes.last() as nat
    }
}

/// The `len` low big-endian bytes of `n`.
pub open spec fn uint_bytes(n: nat, len: nat) -> Seq<u8>
    decreases len,
{
    if len == 0 {
        Seq::empty()
    } else {
        uint_bytes(n / 0x100, (len - 1) as nat).push((n % 0x100) as u8)
    }
}

/// `256` to the power of `len`.
pub open spec fn pow256(len: nat) -> nat
    decreases len,
{
    if len == 0 {
        1
    } else {
        0x100 * pow256((len - 1) as nat)
    }
}

/// A result with the frame taken by its view.
pub open spec fn decoded(r: Result<Option<Vec<u8>>, LengthDelimitedCodecError>) -> Result<
    Option<Seq<u8>>,
    LengthDelimitedCodecError,
> {
    match r {
        Ok(Some(data)) => Ok(Some(data@)),
        Ok(None) => Ok(None),
        Err(e) => Err(e),
    }
}

// ===== impl LengthDelimitedCodec ======

impl LengthDelimitedCodec {
    /// What a frame head asks for: the number of bytes that follow the skipped
    /// ones, or nothing as long as the head is incomplete.
    pub open spec fn head_of(self, src: Seq<u8>) -> Result<
        Option<nat>,
        LengthDelimitedCodecError,
    > {
        let b = self.builder;
        let n = be_uint(src.take(b.length_field_len as int));
        if src.len() < b.head_bytes() {
            Ok(None)
        } else if n > b.max_frame_len {
            Err(LengthDelimitedCodecError::MaxSize)
        } else if n + b.length_adjustment < 0 || n + b.length_adjustment > usize::MAX {
            Err(LengthDelimitedCodecError::Adjusted)
        } else {
            Ok(Some((n + b.length_adjustment) as nat))
        }
    }

    /// Creates a new `LengthDelimitedCodec` with the default configuration values.
    pub fn new() -> (r: LengthDelimitedCodec)
        ensures
            r.builder == Builder::spec_new(),
            r.state == DecodeState::Head,
            r.builder.wf(),
    {
        LengthDelimitedCodec { builder: Builder::new(), state: DecodeState::Head }
    }

    /// max frame size setting.
    pub fn max_frame_length(&self) -> (r: usize)
        ensures
            r == self.builder.max_frame_len,
    {
        self.builder.max_frame_len
    }

    /// Updates the max frame setting.
    pub fn set_max_frame_length(&mut self, val: usize)
        ensures
            *final(self) == (LengthDelimitedCodec {
                builder: Builder { max_frame_len: val, ..old(self).builder },
                ..*old(self)
            }),
    {
        self.builder.max_frame_length(val);
    }

    /// Reads a frame head off the front of `src`.
    fn decode_head(&self, src: &mut Vec<u8>) -> (r: Result<
        Option<usize>,
        LengthDelimitedCodecError,
    >)
        requires
            self.builder.wf(),
        ensures
            match self.head_of(old(src)@) {
                Err(e) => r == Err::<Option<usize>, LengthDelimitedCodecError>(e) && final(src)@
                    == old(src)@,
                Ok(None) => r == Ok::<Option<usize>, LengthDelimitedCodecError>(None) && final(src)@ == old(src)@,
                Ok(Some(n)) => r == Ok::<Option<usize>, LengthDelimitedCodecError>(Some(n as usize))
                    && final(src)@ == old(src)@.skip(self.builder.skipped() as int),
            },
    {
        let head_len: usize = self.builder.num_head_bytes();
        let field_len: usize = self.builder.length_field_len;

        if src.len() < head_len {
            // Not enough data
            return Ok(None);
        }
        let n: u64 = get_uint(src.as_slice(), field_len);
        if n > self.builder.max_frame_len as u64 {
            return Err(LengthDelimitedCodecError::MaxSize);
        }
        // The check above ensures there is no overflow
        let n: usize = n as usize;

        // Adjust `n` with bounds checking
        let adjustment: isize = self.builder.length_adjustment;
        let adjusted = if adjustment < 0 {
            n.checked_sub((-adjustment) as usize)
        } else {
            n.checked_add(adjustment as usize)
        };
        let n: usize = match adjusted {
            Some(n) => n,
            None => return Err(LengthDelimitedCodecError::Adjusted),
        };

        let num_skip: usize = self.builder.get_num_skip();
        if num_skip > 0 {
            let rest = src.split_off(num_skip);
            assert(rest@ =~= old(src)@.skip(num_skip as int));
            *src = rest;
        } else {
            assert(old(src)@.skip(0) =~= old(src)@);
        }
        Ok(Some(n))
    }

    /// Takes `n` bytes off the front of `src` as soon as they are there.
    fn decode_data(&self, n: usize, src: &mut Vec<u8>) -> (r: Option<Vec<u8>>)
        ensures
            if old(src)@.len() < n {
                r is None && final(src)@ == old(src)@
            } else {
                r is Some && r->0@ == old(src)@.take(n as int) && final(src)@ == old(src)@.skip(
                    n as int,
                )
            },
    {
        if src.len() < n {
            return None;
        }
        let rest = src.split_off(n);
        assert(rest@ =~= old(src)@.skip(n as int));
        assert(src@ =~= old(src)@.take(n as int));
        let data = util::copy(src.as_slice());
        *src = rest;
        Some(data)
    }

    /// What is left to read once the head of the next frame is read, and how long
    /// that frame is; nothing as long as the head is incomplete.
    pub open spec fn after_head(self, src: Seq<u8>) -> Result<
        Option<(nat, Seq<u8>)>,
        LengthDelimitedCodecError,
    > {
        match self.state {
            DecodeState::Data(n) => Ok(Some((n as nat, src))),
            DecodeState::Head => match self.head_of(src) {
                Err(e) => Err(e),
                Ok(None) => Ok(None),
                Ok(Some(n)) => Ok(Some((n, src.skip(self.builder.skipped() as int)))),
            },
        }
    }

    /// Decoding from `src` leaves the codec `next` and the bytes `left`, and gives `r`.
    pub open spec fn decodes(
        self,
        src: Seq<u8>,
        next: LengthDelimitedCodec,
        left: Seq<u8>,
        r: Result<Option<Seq<u8>>, LengthDelimitedCodecError>,
    ) -> bool {
        &&& next.builder == self.builder
        &&& match self.after_head(src) {
            Err(e) => {
                &&& r == Err::<Option<Seq<u8>>, LengthDelimitedCodecError>(e)
                &&& left == src
                &&& next.state == self.state
            },
            Ok(None) => {
                &&& r == Ok::<Option<Seq<u8>>, LengthDelimitedCodecError>(None)
                &&& left == src
                &&& next.state == self.state
            },
            Ok(Some((n, rest))) => if rest.len() < n {
                &&& r == Ok::<Option<Seq<u8>>, LengthDelimitedCodecError>(None)
                &&& left == rest
                &&& next.state == DecodeState::Data(n as usize)
            } else {
                &&& r == Ok::<Option<Seq<u8>>, LengthDelimitedCodecError>(
                    Some(rest.take(n as int)),
                )
                &&& left == rest.skip(n as int)
                &&& next.state == DecodeState::Head
            },
        }
    }

    /// Takes the next frame off the front of `src`.
    ///
    /// A frame whose head was read is finished under the configuration that was
    /// in effect then.
    pub fn decode(&mut self, src: &mut Vec<u8>) -> (r: Result<
        Option<Vec<u8>>,
        LengthDelimitedCodecError,
    >)
        requires
            old(self).builder.wf(),
        ensures
            old(self).decodes(old(src)@, *final(self), final(src)@, decoded(r)),
    {
        let n: usize = match self.state {
            DecodeState::Head => match self.decode_head(src) {
                Ok(Some(n)) => {
                    self.state = DecodeState::Data(n);
                    n
                },
                Ok(None) => return Ok(None),
                Err(e) => return Err(e),
            },
            DecodeState::Data(n) => n,
        };

        match self.decode_data(n, src) {
            Some(data) => {
                // Update the decode state
                self.state = DecodeState::Head;
                Ok(Some(data))
            },
            None => Ok(None),
        }
    }

    /// What `encode` writes in front of `len` bytes.
    pub open spec fn prefix(self, len: nat) -> Result<Seq<u8>, LengthDelimitedCodecError> {
        let b = self.builder;
        if len > b.max_frame_len {
            Err(LengthDelimitedCodecError::MaxSize)
        } else if len - b.length_adjustment < 0 || len - b.length_adjustment > usize::MAX {
            Err(LengthDelimitedCodecError::Adjusted)
        } else {
            Ok(uint_bytes((len - b.length_adjustment) as nat, b.length_field_len as nat))
        }
    }

    /// Writes the length prefix and the data.
    pub fn encode(&self, data: &[u8], dst: &mut Vec<u8>) -> (r: Result<
        (),
        LengthDelimitedCodecError,
    >)
        requires
            self.builder.wf(),
        ensures
            match self.prefix(data@.len()) {
                Err(e) => r == Err::<(), LengthDelimitedCodecError>(e) && final(dst)@ == old(dst)@,
                Ok(p) => r is Ok && final(dst)@ == old(dst)@ + p + data@,
            },
    {
        let n: usize = data.len();

        if n > self.builder.max_frame_len {
            return Err(LengthDelimitedCodecError::MaxSize);
        }
        // Adjust `n` with bounds checking
        let adjustment: isize = self.builder.length_adjustment;
        let adjusted = if adjustment < 0 {
            n.checked_add((-adjustment) as usize)
        } else {
            n.checked_sub(adjustment as usize)
        };
        let n: usize = match adjusted {
            Some(n) => n,
            None => return Err(LengthDelimitedCodecError::Adjusted),
        };
        put_uint(dst, n as u64, self.builder.length_field_len);

        // Write the frame to the buffer
        dst.extend_from_slice(data);
        Ok(())
    }
}

impl Default for LengthDelimitedCodec {
    fn default() -> (r: LengthDelimitedCodec)
        ensures
            r.builder == Builder::spec_new(),
            r.state == DecodeState::Head,
    {
        LengthDelimitedCodec::new()
    }
}

// ===== impl Builder =====

impl Builder {
    /// The configuration is one that frames can be read with.
    pub open spec fn wf(self) -> bool {
        1 <= self.length_field_len <= 8 && self.length_adjustment > isize::MIN
    }

    /// The default configuration: frames of at most 8MB behind a four-byte length.
    pub open spec fn spec_new() -> Builder {
        Builder {
            max_frame_len: 8_388_608,
            length_field_len: 4,
            length_adjustment: 0,
            num_skip: None,
        }
    }

    /// How many bytes must be there before a head can be read.
    pub open spec fn head_bytes(self) -> usize {
        match self.num_skip {
            Some(n) if n > self.length_field_len => n,
            _ => self.length_field_len,
        }
    }

    /// How many bytes a head takes off the input.
    pub open spec fn skipped(self) -> usize {
        match self.num_skip {
            Some(n) => n,
            None => self.length_field_len,
        }
    }

    /// Creates a new length delimited codec builder with default configuration
    /// values.
    pub fn new() -> (r: Builder)
        ensures
            r == Builder::spec_new(),
            r.wf(),
    {
        Builder {
            // Default max frame length of 8MB
            max_frame_len: 8_388_608,
            // Default byte length of 4
            length_field_len: 4,
            length_adjustment: 0,
            // Total number of bytes to skip before reading the payload, if not set,
            // `length_field_len
            num_skip: None,
        }
    }

    /// Sets the max frame length in bytes
    pub fn max_frame_length(&mut self, val: usize) -> (r: &mut Builder)
        ensures
            *r == (Builder { max_frame_len: val, ..*old(self) }),
            *final(self) == *final(r),
    {
        self.max_frame_len = val;
        self
    }

    /// Sets the number of bytes used to represent the length field
    pub fn length_field_length(&mut self, val: usize) -> (r: &mut Builder)
        requires
            1 <= val <= 8,
        ensures
            *r == (Builder { length_field_len: val, ..*old(self) }),
            *final(self) == *final(r),
    {
        self.length_field_len = val;
        self
    }

    /// Delta between the payload length specified in the header and the real
    /// payload length
    pub fn length_adjustment(&mut self, val: isize) -> (r: &mut Builder)
        ensures
            *r == (Builder { length_adjustment: val, ..*old(self) }),
            *final(self) == *final(r),
    {
        self.length_adjustment = val;
        self
    }

    /// Sets the number of bytes to skip before reading the payload
    pub fn num_skip(&mut self, val: usize) -> (r: &mut Builder)
        ensures
            *r == (Builder { num_skip: Some(val), ..*old(self) }),
            *final(self) == *final(r),
    {
        self.num_skip = Some(val);
        self
    }

    /// Create a configured length delimited `LengthDelimitedCodec`
    pub fn new_codec(&self) -> (r: LengthDelimitedCodec)
        ensures
            r == (LengthDelimitedCodec { builder: *self, state: DecodeState::Head }),
    {
        LengthDelimitedCodec { builder: *self, state: DecodeState::Head }
    }

    fn num_head_bytes(&self) -> (r: usize)
        ensures
            r == self.head_bytes(),
    {
        match self.num_skip {
            Some(n) => if n > self.length_field_len {
                n
            } else {
                self.length_field_len
            },
            None => self.length_field_len,
        }
    }

    fn get_num_skip(&self) -> (r: usize)
        ensures
            r == self.skipped(),
    {
        match self.num_skip {
            Some(n) => n,
            None => self.length_field_len,
        }
    }
}

impl Default for Builder {
    fn default() -> (r: Builder)
        ensures
            r == Builder::spec_new(),
    {
        Builder::new()
    }
}

// ===== Numbers =====

/// A number of `len` bytes is less than `256^len`.
proof fn be_uint_bound(bytes: Seq<u8>)
    ensures
        be_uint(bytes) < pow256(bytes.len()),
    decreases bytes.len(),
{
    if bytes.len() > 0 {
        be_uint_bound(bytes.drop_last());
    }
}

proof fn pow256_values()
    ensures
        pow256(1) == 0x100,
        pow256(2) == 0x1_0000,
        pow256(3) == 0x100_0000,
        pow256(4) == 0x1_0000_0000,
        pow256(5) == 0x100_0000_0000,
        pow256(6) == 0x1_0000_0000_0000,
        pow256(7) == 0x100_0000_0000_0000,
        pow256(8) == 0x1_0000_0000_0000_0000,
{
    reveal_with_fuel(pow256, 9);
}

/// The number that the first `len` bytes of `src` hold, big endian.
fn get_uint(src: &[u8], len: usize) -> (r: u64)
    requires
        len <= 8,
        len <= src@.len(),
    ensures
        r == be_uint(src@.take(len as int)),
{
    let mut n: u64 = 0;
    let mut i: usize = 0;
    assert(src@.take(0) =~= Seq::empty());
    while i < len
        invariant
            i <= len <= 8,
            len <= src@.len(),
            n == be_uint(src@.take(i as int)),
        decreases len - i,
    {
        proof {
            let t = src@.take(i as int);
            be_uint_bound(t);
            pow256_values();
            assert(pow256(0) == 1);
            assert(pow256(t.len()) <= pow256(7)) by {
                assert(t.len() == 0 || t.len() == 1 || t.len() == 2 || t.len() == 3 || t.len()
                    == 4 || t.len() == 5 || t.len() == 6 || t.len() == 7);
            }
            let u = src@.take(i + 1);
            assert(u.drop_last() =~= t);
            assert(u.last() == src@[i as int]);
        }
        n = n * 0x100 + src[i] as u64;
        i += 1;
    }
    n
}

/// Appends the `len` low bytes of `n`, big endian.
fn put_uint(dst: &mut Vec<u8>, n: u64, len: usize)
    ensures
        final(dst)@ == old(dst)@ + uint_bytes(n as nat, len as nat),
    decreases len,
{
    if len == 0 {
        assert(dst@ =~= old(dst)@ + uint_bytes(n as nat, 0));
        return;
    }
    put_uint(dst, n / 0x100, len - 1);
    dst.push((n % 0x100) as u8);
    assert(dst@ =~= old(dst)@ + uint_bytes(n as nat, len as nat));
}

/// A number that fits `len` bytes is recovered from them.
proof fn uint_inverse(n: nat, len: nat)
    requires
        n < pow256(len),
    ensures
        uint_bytes(n, len).len() == len,
        be_uint(uint_bytes(n, len)) == n,
    decreases len,
{
    if len > 0 {
        uint_inverse(n / 0x100, (len - 1) as nat);
        let s = uint_bytes(n, len);
        assert(s.drop_last() =~= uint_bytes(n / 0x100, (len - 1) as nat));
    }
}

impl LengthDelimitedCodec {
    /// The codec writes a frame of these bytes that a codec like it can read: the
    /// head is skipped, and the length fits its field and its limit.
    pub open spec fn frames(self, data: Seq<u8>) -> bool {
        let b = self.builder;
        &&& b.wf()
        &&& b.num_skip is None
        &&& self.state == DecodeState::Head
        &&& self.prefix(data.len()) is Ok
        &&& data.len() - b.length_adjustment < pow256(b.length_field_len as nat)
        &&& data.len() - b.length_adjustment <= b.max_frame_len
        &&& data.len() <= usize::MAX
    }
}

/// A frame that was written is the next one that is read, and what follows it is
/// left, provided the head is skipped and the length fits its field.
pub proof fn delimited_round_trip(codec: LengthDelimitedCodec, data: Seq<u8>, rest: Seq<u8>)
    requires
        codec.frames(data),
    ensures
        codec.after_head(codec.prefix(data.len())->Ok_0 + data + rest) == Ok::<
            Option<(nat, Seq<u8>)>,
            LengthDelimitedCodecError,
        >(Some((data.len(), data + rest))),
        (data + rest).take(data.len() as int) == data,
        (data + rest).skip(data.len() as int) == rest,
{
    let b = codec.builder;
    let n = (data.len() - b.length_adjustment) as nat;
    let p = uint_bytes(n, b.length_field_len as nat);
    uint_inverse(n, b.length_field_len as nat);
    let all = p + data + rest;
    assert(all.take(b.length_field_len as int) =~= p);
    assert(all.skip(b.length_field_len as int) =~= data + rest);
    assert((data + rest).take(data.len() as int) =~= data);
    assert((data + rest).skip(data.len() as int) =~= rest);
}

/// The pieces one after the other.
pub open spec fn joined(pieces: Seq<Seq<u8>>) -> Seq<u8>
    decreases pieces.len(),
{
    if pieces.len() == 0 {
        Seq::empty()
    } else {
        joined(pieces.drop_last()) + pieces.last()
    }
}

/// One call of `decode` for each piece that has come in: what a call leaves stands
/// in front of the next piece.
pub open spec fn decodes_pieces(
    pieces: Seq<Seq<u8>>,
    codecs: Seq<LengthDelimitedCodec>,
    lefts: Seq<Seq<u8>>,
    results: Seq<Result<Option<Seq<u8>>, LengthDelimitedCodecError>>,
) -> bool {
    &&& results.len() == pieces.len()
    &&& codecs.len() == pieces.len() + 1
    &&& lefts.len() == pieces.len() + 1
    &&& lefts[0] == Seq::<u8>::empty()
    &&& forall|i: int|
        0 <= i < pieces.len() ==> #[trigger] decodes_piece(pieces, codecs, lefts, results, i)
}

/// The call for one of the pieces.
pub open spec fn decodes_piece(
    pieces: Seq<Seq<u8>>,
    codecs: Seq<LengthDelimitedCodec>,
    lefts: Seq<Seq<u8>>,
    results: Seq<Result<Option<Seq<u8>>, LengthDelimitedCodecError>>,
    i: int,
) -> bool {
    codecs[i].decodes(lefts[i] + pieces[i], codecs[i + 1], lefts[i + 1], results[i])
}

/// The calls before the last byte of a frame has come in: each of them returns
/// nothing, and keeps what it has received.
proof fn pieces_wait(
    codec: LengthDelimitedCodec,
    data: Seq<u8>,
    rest: Seq<u8>,
    pieces: Seq<Seq<u8>>,
    codecs: Seq<LengthDelimitedCodec>,
    lefts: Seq<Seq<u8>>,
    results: Seq<Result<Option<Seq<u8>>, LengthDelimitedCodecError>>,
)
    requires
        codec.frames(data),
        decodes_pieces(pieces, codecs, lefts, results),
        codecs[0] == codec,
        joined(pieces).len() < codec.builder.length_field_len + data.len(),
        joined(pieces) == (codec.prefix(data.len())->Ok_0 + data + rest).take(
            joined(pieces).len() as int,
        ),
    ensures
        forall|i: int|
            0 <= i < pieces.len() ==> (#[trigger] results[i]) == Ok::<
                Option<Seq<u8>>,
                LengthDelimitedCodecError,
            >(None),
        codecs.last().builder == codec.builder,
        if joined(pieces).len() < codec.builder.length_field_len {
            codecs.last().state == DecodeState::Head && lefts.last() == joined(pieces)
        } else {
            codecs.last().state == DecodeState::Data(data.len() as usize) && lefts.last() == joined(
                pieces,
            ).skip(codec.builder.length_field_len as int)
        },
    decreases pieces.len(),
{
    if pieces.len() > 0 {
        let n = pieces.len() - 1;
        let f = codec.builder.length_field_len as int;
        let whole = codec.prefix(data.len())->Ok_0 + data + rest;
        let before = joined(pieces.drop_last());
        let all = joined(pieces);
        uint_inverse((data.len() - codec.builder.length_adjustment) as nat, f as nat);
        assert(whole.take(f) =~= codec.prefix(data.len())->Ok_0);
        assert(before =~= whole.take(before.len() as int)) by {
            assert(before =~= all.take(before.len() as int));
        }
        calls_before(pieces, codecs, lefts, results);
        pieces_wait(
            codec,
            data,
            rest,
            pieces.drop_last(),
            codecs.drop_last(),
            lefts.drop_last(),
            results.drop_last(),
        );
        assert forall|i: int| 0 <= i < n implies (#[trigger] results[i]) == Ok::<
            Option<Seq<u8>>,
            LengthDelimitedCodecError,
        >(None) by {
            assert(results.drop_last()[i] == results[i]);
        }
        let src = lefts[n] + pieces[n];
        if before.len() < f {
            assert(src == all);
            if all.len() >= f {
                head_is_found(codec, data, all, whole);
            }
        } else {
            assert(src =~= all.skip(f));
        }
    }
}

/// The head of a frame is found as soon as the length field is there.
proof fn head_is_found(codec: LengthDelimitedCodec, data: Seq<u8>, src: Seq<u8>, whole: Seq<u8>)
    requires
        codec.frames(data),
        src.len() >= codec.builder.length_field_len,
        src == whole.take(src.len() as int),
        src.len() <= whole.len(),
        whole.take(codec.builder.length_field_len as int) == codec.prefix(data.len())->Ok_0,
    ensures
        codec.after_head(src) == Ok::<Option<(nat, Seq<u8>)>, LengthDelimitedCodecError>(
            Some((data.len(), src.skip(codec.builder.length_field_len as int))),
        ),
{
    let b = codec.builder;
    uint_inverse((data.len() - b.length_adjustment) as nat, b.length_field_len as nat);
    assert(src.take(b.length_field_len as int) =~= whole.take(b.length_field_len as int));
}

/// All calls but the last one.
proof fn calls_before(
    pieces: Seq<Seq<u8>>,
    codecs: Seq<LengthDelimitedCodec>,
    lefts: Seq<Seq<u8>>,
    results: Seq<Result<Option<Seq<u8>>, LengthDelimitedCodecError>>,
)
    requires
        decodes_pieces(pieces, codecs, lefts, results),
        pieces.len() > 0,
    ensures
        decodes_pieces(
            pieces.drop_last(),
            codecs.drop_last(),
            lefts.drop_last(),
            results.drop_last(),
        ),
        codecs.drop_last().last() == codecs[pieces.len() - 1],
        lefts.drop_last().last() == lefts[pieces.len() - 1],
        codecs[pieces.len() - 1].decodes(
            lefts[pieces.len() - 1] + pieces.last(),
            codecs.last(),
            lefts.last(),
            results.last(),
        ),
{
    assert forall|i: int| 0 <= i < pieces.len() - 1 implies #[trigger] decodes_piece(
        pieces.drop_last(),
        codecs.drop_last(),
        lefts.drop_last(),
        results.drop_last(),
        i,
    ) by {
        assert(decodes_piece(pieces, codecs, lefts, results, i));
    }
    assert(decodes_piece(pieces, codecs, lefts, results, pieces.len() - 1));
}

/// The call that has the last byte of a frame.
proof fn last_piece(
    codec: LengthDelimitedCodec,
    data: Seq<u8>,
    rest: Seq<u8>,
    waiting: LengthDelimitedCodec,
    src: Seq<u8>,
    next: LengthDelimitedCodec,
    left: Seq<u8>,
    r: Result<Option<Seq<u8>>, LengthDelimitedCodecError>,
)
    requires
        codec.frames(data),
        waiting.builder == codec.builder,
        waiting.state == DecodeState::Head && src == codec.prefix(data.len())->Ok_0 + data + rest
            || waiting.state == DecodeState::Data(data.len() as usize) && src == data + rest,
        waiting.decodes(src, next, left, r),
    ensures
        r == Ok::<Option<Seq<u8>>, LengthDelimitedCodecError>(Some(data)),
        left == rest,
        next == codec,
{
    delimited_round_trip(codec, data, rest);
}

/// A frame may come in any pieces, single bytes among them. Each call before its
/// last byte returns nothing, and the call that has the last byte returns the frame,
/// leaves what came behind it, and is ready for the next one.
pub proof fn frame_in_pieces(
    codec: LengthDelimitedCodec,
    data: Seq<u8>,
    rest: Seq<u8>,
    pieces: Seq<Seq<u8>>,
    codecs: Seq<LengthDelimitedCodec>,
    lefts: Seq<Seq<u8>>,
    results: Seq<Result<Option<Seq<u8>>, LengthDelimitedCodecError>>,
)
    requires
        codec.frames(data),
        decodes_pieces(pieces, codecs, lefts, results),
        codecs[0] == codec,
        pieces.len() > 0,
        joined(pieces) == codec.prefix(data.len())->Ok_0 + data + rest,
        joined(pieces.drop_last()).len() < codec.prefix(data.len())->Ok_0.len() + data.len(),
    ensures
        forall|i: int|
            0 <= i < pieces.len() - 1 ==> (#[trigger] results[i]) == Ok::<
                Option<Seq<u8>>,
                LengthDelimitedCodecError,
            >(None),
        results.last() == Ok::<Option<Seq<u8>>, LengthDelimitedCodecError>(Some(data)),
        lefts.last() == rest,
        codecs.last() == codec,
{
    let n = pieces.len() - 1;
    let b = codec.builder;
    let f = b.length_field_len as int;
    let whole = joined(pieces);
    let before = joined(pieces.drop_last());
    uint_inverse((data.len() - b.length_adjustment) as nat, f as nat);
    assert(before =~= whole.take(before.len() as int));
    calls_before(pieces, codecs, lefts, results);
    pieces_wait(
        codec,
        data,
        rest,
        pieces.drop_last(),
        codecs.drop_last(),
        lefts.drop_last(),
        results.drop_last(),
    );
    assert forall|i: int| 0 <= i < n implies (#[trigger] results[i]) == Ok::<
        Option<Seq<u8>>,
        LengthDelimitedCodecError,
    >(None) by {
        assert(results.drop_last()[i] == results[i]);
    }
    let src = lefts[n] + pieces[n];
    assert(before.len() < f ==> src == whole);
    if before.len() >= f {
        assert(src =~= whole.skip(f));
        assert(whole.skip(f) =~= data + rest);
    }
    last_piece(codec, data, rest, codecs[n], src, codecs[n + 1], lefts[n + 1], results[n]);
}

} // verus!
