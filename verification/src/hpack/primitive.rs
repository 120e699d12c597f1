//! Integers and strings of header blocks.
use vstd::prelude::*;

use crate::frame::util;
use crate::hpack::{huffman, DecoderError, NeedMore};

verus! {

/// One more than the largest number that fits the bytes behind a full prefix.
pub const VARINT_LIMIT: u32 = 0x1000_0000;

/// The number of bytes that may follow a full prefix.
pub const MAX_VARINT_LEN: u32 = 4;

/// A number as groups of seven bits, least significant first. Every byte but
/// the last has its high bit set.
pub open spec fn varint_bytes(v: nat) -> Seq<u8>
    decreases v,
{
    if v < 128 {
        seq![v as u8]
    } else {
        seq![(128 + v % 128) as u8] + varint_bytes(v / 128)
    }
}

/// The number that at most `k` bytes at the front of `src` stand for, and how
/// many bytes it takes.
pub open spec fn varint(src: Seq<u8>, k: nat) -> Result<(nat, nat), DecoderError>
    decreases k,
{
    if src.len() == 0 {
        Err(DecoderError::NeedMore(NeedMore::IntegerUnderflow))
    } else if src[0] < 128 {
        Ok((src[0] as nat, 1))
    } else if k <= 1 {
        Err(DecoderError::IntegerOverflow)
    } else {
        match varint(src.skip(1), (k - 1) as nat) {
            Ok((v, n)) => Ok(((src[0] - 128) as nat + 128 * v, n + 1)),
            Err(e) => Err(e),
        }
    }
}

/// A number whose first bits share a byte with `flags`. `mask` is the largest
/// number that fits those bits, and stands for "more bytes follow".
#[verifier::opaque]
pub open spec fn int_bytes(v: nat, mask: u8, flags: u8) -> Seq<u8> {
    if v < mask {
        seq![(flags + v) as u8]
    } else {
        seq![(flags + mask) as u8] + varint_bytes((v - mask) as nat)
    }
}

/// The number at the front of `src`, and how many bytes it takes.
#[verifier::opaque]
pub open spec fn int_at(src: Seq<u8>, mask: u8) -> Result<(nat, nat), DecoderError> {
    let prefix = src[0] as int % (mask + 1);
    if src.len() == 0 {
        Err(DecoderError::NeedMore(NeedMore::IntegerUnderflow))
    } else if prefix < mask {
        Ok((prefix as nat, 1))
    } else {
        match varint(src.skip(1), MAX_VARINT_LEN as nat) {
            Ok((v, n)) => Ok((mask as nat + v, n + 1)),
            Err(e) => Err(e),
        }
    }
}

/// A string on the wire: its length, then its bytes in Huffman code.
#[verifier::opaque]
pub open spec fn string_bytes(s: Seq<u8>) -> Seq<u8> {
    if s.len() == 0 {
        seq![0u8]
    } else {
        int_bytes(huffman::encoded(s).len(), 127, 128) + huffman::encoded(s)
    }
}

/// The string at the front of `src`, and how many bytes it takes.
#[verifier::opaque]
pub open spec fn string_at(src: Seq<u8>) -> Result<(Seq<u8>, nat), DecoderError> {
    if src.len() == 0 {
        Err(DecoderError::NeedMore(NeedMore::UnexpectedEndOfStream))
    } else {
        match int_at(src, 127) {
            Err(e) => Err(e),
            Ok((len, n)) => if n + len > src.len() {
                Err(DecoderError::NeedMore(NeedMore::StringUnderflow))
            } else if src[0] >= 128 {
                match huffman::decoded(src.subrange(n as int, (n + len) as int)) {
                    Ok(s) => Ok((s, n + len)),
                    Err(e) => Err(e),
                }
            } else {
                Ok((src.subrange(n as int, (n + len) as int), n + len))
            },
        }
    }
}

/// What is known of every number that is read.
pub proof fn varint_bounds(src: Seq<u8>, k: nat)
    requires
        k <= 4,
    ensures
        varint(src, k) matches Ok((v, n)) ==> 1 <= n <= src.len() && n <= k + 1 && v
            < VARINT_LIMIT && (k <= 1 ==> v < 128) && (k == 2 ==> v < 0x4000) && (k == 3 ==> v
            < 0x20_0000),
    decreases k,
{
    if src.len() > 0 && src[0] >= 128 && k > 1 {
        varint_bounds(src.skip(1), (k - 1) as nat);
    }
}

/// What is known of every number that is read.
pub proof fn int_bounds(src: Seq<u8>, mask: u8)
    ensures
        int_at(src, mask) matches Ok((v, n)) ==> 1 <= n <= src.len() && v < VARINT_LIMIT + 256,
{
    reveal(int_at);
    if src.len() > 0 {
        varint_bounds(src.skip(1), 4);
    }
}

/// Reads a number in groups of seven bits at `src[at..]`.
fn decode_varint(src: &[u8], at: usize, k: u32) -> (r: Result<(u32, usize), DecoderError>)
    requires
        at <= src@.len(),
        1 <= k <= 4,
    ensures
        match varint(src@.skip(at as int), k as nat) {
            Ok((v, n)) => r is Ok && r->Ok_0.0 == v && r->Ok_0.1 == at + n && at + n <= src@.len(),
            Err(e) => r == Err::<(u32, usize), DecoderError>(e),
        },
    decreases k,
{
    let ghost rest = src@.skip(at as int);
    proof {
        varint_bounds(rest, k as nat);
    }
    if at >= src.len() {
        return Err(DecoderError::NeedMore(NeedMore::IntegerUnderflow));
    }
    let b: u8 = src[at];
    if b < 128 {
        return Ok((b as u32, at + 1));
    }
    if k == 1 {
        return Err(DecoderError::IntegerOverflow);
    }
    proof {
        assert(rest.skip(1) =~= src@.skip(at + 1));
        varint_bounds(rest.skip(1), (k - 1) as nat);
    }
    match decode_varint(src, at + 1, k - 1) {
        Ok((v, end)) => Ok((b as u32 - 128 + 128 * v, end)),
        Err(e) => Err(e),
    }
}

/// Reads the number at `src[at..]`; the second part of the result is where it ends.
pub fn decode_int(src: &[u8], at: usize, mask: u8) -> (r: Result<(u32, usize), DecoderError>)
    requires
        at <= src@.len(),
        mask < 255,
    ensures
        match int_at(src@.skip(at as int), mask) {
            Ok((v, n)) => r is Ok && r->Ok_0.0 == v && r->Ok_0.1 == at + n && at + n <= src@.len()
                && n >= 1 && v < VARINT_LIMIT + 256,
            Err(e) => r == Err::<(u32, usize), DecoderError>(e),
        },
{
    proof {
        reveal(int_at);
    }
    let ghost rest = src@.skip(at as int);
    proof {
        int_bounds(rest, mask);
    }
    if at >= src.len() {
        return Err(DecoderError::NeedMore(NeedMore::IntegerUnderflow));
    }
    let prefix: u8 = src[at] % (mask + 1);
    if prefix < mask {
        return Ok((prefix as u32, at + 1));
    }
    proof {
        assert(rest.skip(1) =~= src@.skip(at + 1));
        varint_bounds(rest.skip(1), 4);
    }
    match decode_varint(src, at + 1, MAX_VARINT_LEN) {
        Ok((v, end)) => Ok((mask as u32 + v, end)),
        Err(e) => Err(e),
    }
}

/// Reads the string at `src[at..]`; the second part of the result is where it ends.
pub fn decode_string(src: &[u8], at: usize) -> (r: Result<(Vec<u8>, usize), DecoderError>)
    requires
        at <= src@.len(),
    ensures
        match string_at(src@.skip(at as int)) {
            Ok((s, n)) => r is Ok && r->Ok_0.0@ == s && r->Ok_0.1 == at + n && at + n
                <= src@.len() && n >= 1,
            Err(e) => r == Err::<(Vec<u8>, usize), DecoderError>(e),
        },
{
    proof {
        reveal(string_at);
    }
    let ghost rest = src@.skip(at as int);
    if at >= src.len() {
        return Err(DecoderError::NeedMore(NeedMore::UnexpectedEndOfStream));
    }
    let huff: bool = src[at] >= 128;
    match decode_int(src, at, 127) {
        Err(e) => Err(e),
        Ok((len, start)) => {
            if len as usize > src.len() - start {
                return Err(DecoderError::NeedMore(NeedMore::StringUnderflow));
            }
            let end: usize = start + len as usize;
            let raw = &src[start..end];
            assert(raw@ =~= rest.subrange(start - at, end - at));
            if huff {
                match huffman::decode(raw) {
                    Ok(s) => Ok((s, end)),
                    Err(e) => Err(e),
                }
            } else {
                Ok((util::copy(raw), end))
            }
        },
    }
}

/// Appends a number in groups of seven bits.
fn encode_varint(v: usize, dst: &mut Vec<u8>)
    ensures
        final(dst)@ == old(dst)@ + varint_bytes(v as nat),
    decreases v,
{
    if v < 128 {
        dst.push(v as u8);
        assert(dst@ =~= old(dst)@ + varint_bytes(v as nat));
    } else {
        dst.push((128 + v % 128) as u8);
        encode_varint(v / 128, dst);
        assert(dst@ =~= old(dst)@ + varint_bytes(v as nat));
    }
}

/// Appends a number whose first bits share a byte with `flags`.
pub fn encode_int(v: usize, mask: u8, flags: u8, dst: &mut Vec<u8>)
    requires
        flags + mask <= 255,
    ensures
        final(dst)@ == old(dst)@ + int_bytes(v as nat, mask, flags),
{
    proof {
        reveal(int_bytes);
    }
    if v < mask as usize {
        dst.push(flags + v as u8);
    } else {
        dst.push(flags + mask);
        encode_varint(v - mask as usize, dst);
    }
    assert(dst@ =~= old(dst)@ + int_bytes(v as nat, mask, flags));
}

/// Appends a string.
pub fn encode_string(s: &[u8], dst: &mut Vec<u8>)
    ensures
        final(dst)@ == old(dst)@ + string_bytes(s@),
{
    proof {
        reveal(string_bytes);
    }
    if s.len() == 0 {
        // Write an empty string
        dst.push(0);
    } else {
        let mut coded: Vec<u8> = Vec::new();
        huffman::encode(s, &mut coded);
        assert(coded@ =~= huffman::encoded(s@));
        encode_int(coded.len(), 127, 128, dst);
        dst.append(&mut coded);
    }
    assert(dst@ =~= old(dst)@ + string_bytes(s@));
}

// ===== Laws =====

/// A number in groups of seven bits reads back as itself.
proof fn varint_round_trip(v: nat, k: nat, rest: Seq<u8>)
    requires
        1 <= k <= 4,
        v < VARINT_LIMIT,
        k == 1 ==> v < 128,
        k == 2 ==> v < 0x4000,
        k == 3 ==> v < 0x20_0000,
    ensures
        varint(varint_bytes(v) + rest, k) == Ok::<(nat, nat), DecoderError>(
            (v, varint_bytes(v).len()),
        ),
    decreases k,
{
    let all = varint_bytes(v) + rest;
    if v < 128 {
        assert(all[0] == v);
    } else {
        assert(all[0] == 128 + v % 128);
        varint_round_trip(v / 128, (k - 1) as nat, rest);
        assert(all.skip(1) =~= varint_bytes(v / 128) + rest);
        assert(varint_bytes(v).len() == 1 + varint_bytes(v / 128).len());
    }
}

/// A number that was written reads back as itself, as long as it is below `2^28`.
/// The flags must be a multiple of what the prefix can hold.
pub proof fn int_round_trip(v: nat, mask: u8, flags: u8, rest: Seq<u8>)
    requires
        v < VARINT_LIMIT,
        flags + mask <= 255,
        mask > 0,
        flags as int % (mask + 1) == 0,
    ensures
        int_at(int_bytes(v, mask, flags) + rest, mask) == Ok::<(nat, nat), DecoderError>(
            (v, int_bytes(v, mask, flags).len()),
        ),
        int_bytes(v, mask, flags).len() >= 1,
        flags <= (int_bytes(v, mask, flags) + rest)[0] <= flags + mask,
{
    reveal(int_at);
    reveal(int_bytes);
    let all = int_bytes(v, mask, flags) + rest;
    let m = mask + 1;
    let low = if v < mask {
        v as int
    } else {
        mask as int
    };
    assert(all[0] == flags + low);
    assert((flags + low) % m == low) by (nonlinear_arith)
        requires
            flags as int % m == 0,
            0 <= low < m,
            m > 0,
    ;
    if v >= mask {
        let w = (v - mask) as nat;
        varint_round_trip(w, 4, rest);
        assert(all.skip(1) =~= varint_bytes(w) + rest);
    }
}

/// A string that was written reads back as itself, unless its code takes `2^28`
/// bytes or more.
pub proof fn string_round_trip(s: Seq<u8>, rest: Seq<u8>)
    requires
        huffman::encoded(s).len() < VARINT_LIMIT,
    ensures
        string_at(string_bytes(s) + rest) == Ok::<(Seq<u8>, nat), DecoderError>(
            (s, string_bytes(s).len()),
        ),
        string_bytes(s).len() >= 1,
{
    reveal(string_at);
    reveal(string_bytes);
    let all = string_bytes(s) + rest;
    if s.len() == 0 {
        reveal(int_at);
        assert(all[0] == 0);
        assert(all.subrange(1, 1) =~= s);
    } else {
        let coded = huffman::encoded(s);
        let head = int_bytes(coded.len(), 127, 128);
        int_round_trip(coded.len(), 127, 128, coded + rest);
        huffman::huffman_round_trip(s);
        assert(all =~= head + (coded + rest));
        assert(all.subrange(head.len() as int, (head.len() + coded.len()) as int) =~= coded);
    }
}

} // verus!
