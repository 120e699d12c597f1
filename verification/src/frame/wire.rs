//! Big-endian numbers on the wire.
use vstd::prelude::*;

verus! {

/// The number whose big-endian bytes are the first four of `buf`.
pub open spec fn be32(buf: Seq<u8>) -> int {
    buf[0] * 0x100_0000 + buf[1] * 0x1_0000 + buf[2] * 0x100 + buf[3]
}

/// The four big-endian bytes of `n`.
pub open spec fn be32_bytes(n: u32) -> Seq<u8> {
    seq![
        (n / 0x100_0000) as u8,
        (n / 0x1_0000 % 0x100) as u8,
        (n / 0x100 % 0x100) as u8,
        (n % 0x100) as u8,
    ]
}

/// The big-endian number at `src[at..at + 4]`.
pub fn get_u32(src: &[u8], at: usize) -> (r: u32)
    requires
        at + 4 <= src@.len(),
    ensures
        r == be32(src@.skip(at as int)),
{
    let a: u32 = src[at] as u32;
    let b: u32 = src[at + 1] as u32;
    let c: u32 = src[at + 2] as u32;
    let d: u32 = src[at + 3] as u32;
    a * 0x100_0000 + b * 0x1_0000 + c * 0x100 + d
}

/// Appends `n`, big endian.
pub fn put_u32(dst: &mut Vec<u8>, n: u32)
    ensures
        final(dst)@ == old(dst)@ + be32_bytes(n),
{
    dst.push((n / 0x100_0000) as u8);
    dst.push((n / 0x1_0000 % 0x100) as u8);
    dst.push((n / 0x100 % 0x100) as u8);
    dst.push((n % 0x100) as u8);
    assert(dst@ =~= old(dst)@ + be32_bytes(n));
}

/// A number read back from its big-endian bytes is the number.
pub proof fn be32_inverse(n: u32, rest: Seq<u8>)
    ensures
        be32(be32_bytes(n) + rest) == n,
        be32_bytes(n).len() == 4,
{
    let s = be32_bytes(n) + rest;
    assert(s[0] == be32_bytes(n)[0] && s[1] == be32_bytes(n)[1]);
    assert(s[2] == be32_bytes(n)[2] && s[3] == be32_bytes(n)[3]);
}

/// The three low big-endian bytes of `n`.
pub open spec fn be24_bytes(n: nat) -> Seq<u8> {
    seq![(n / 0x1_0000 % 0x100) as u8, (n / 0x100 % 0x100) as u8, (n % 0x100) as u8]
}

/// The number whose big-endian bytes are the first three of `buf`.
pub open spec fn be24(buf: Seq<u8>) -> int {
    buf[0] * 0x1_0000 + buf[1] * 0x100 + buf[2]
}

} // verus!
