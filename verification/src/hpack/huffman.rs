//! Huffman coded strings.
use vstd::prelude::*;

use crate::frame::util;
use crate::hpack::huffman_table as table;
use crate::hpack::DecoderError;

verus! {

/// The `n` low bits of `v`, most significant first.
pub open spec fn be_bits(v: nat, n: nat) -> Seq<bool>
    decreases n,
{
    if n == 0 {
        Seq::empty()
    } else {
        be_bits(v / 2, (n - 1) as nat).push(v % 2 == 1)
    }
}

/// The code word with a given rank.
pub open spec fn code(rank: u16) -> nat {
    let len = table::code_len(rank);
    (table::first(len) + (rank - table::base(len))) as nat
}

/// The bits of the code word of a symbol.
pub open spec fn symbol_bits(sym: u8) -> Seq<bool> {
    be_bits(code(table::rank(sym)), table::code_len(table::rank(sym)) as nat)
}

/// The bits of a string: those of its symbols, one after the other.
pub open spec fn string_bits(s: Seq<u8>) -> Seq<bool>
    decreases s.len(),
{
    if s.len() == 0 {
        Seq::empty()
    } else {
        symbol_bits(s[0]) + string_bits(s.skip(1))
    }
}

/// `k` set bits.
pub open spec fn ones(k: nat) -> Seq<bool> {
    Seq::new(k, |i: int| true)
}

/// What bit `j` of a byte is worth, counted from the most significant one.
pub open spec fn weight(j: int) -> int {
    if j == 0 {
        128
    } else if j == 1 {
        64
    } else if j == 2 {
        32
    } else if j == 3 {
        16
    } else if j == 4 {
        8
    } else if j == 5 {
        4
    } else if j == 6 {
        2
    } else if j == 7 {
        1
    } else {
        0
    }
}

/// The bits of a sequence of bytes.
pub open spec fn bits(src: Seq<u8>) -> Seq<bool> {
    Seq::new(8 * src.len(), |p: int| (src[p / 8] as int / weight(p % 8)) % 2 == 1)
}

/// The numbers of set bits with which an incomplete last byte is filled up.
pub open spec fn padding(len: nat) -> nat {
    ((8 - len % 8) % 8) as nat
}

/// The number that a sequence of bits makes up, most significant first.
pub open spec fn value(b: Seq<bool>) -> nat
    decreases b.len(),
{
    if b.len() == 0 {
        0
    } else {
        2 * value(b.drop_last()) + (if b.last() {
            1nat
        } else {
            0nat
        })
    }
}

/// Bits as bytes, eight by eight; what is left over is not among them.
pub open spec fn bytes_of(b: Seq<bool>) -> Seq<u8> {
    Seq::new(b.len() / 8, |i: int| value(b.subrange(8 * i, 8 * i + 8)) as u8)
}

/// The bytes that a string is written as: its bits, filled up with set bits.
pub open spec fn encoded(s: Seq<u8>) -> Seq<u8> {
    bytes_of(string_bits(s) + ones(padding(string_bits(s).len())))
}

/// The string that a sequence of bits stands for, read behind the first `n`
/// bits of a code word, which make up the number `v`.
///
/// A code word ends at the first length at which the number is below the limit.
/// At the end there may be up to seven bits that belong to no code word, all of
/// them set.
pub open spec fn decode_bits(bits: Seq<bool>, v: nat, n: nat) -> Option<Seq<u8>>
    decreases bits.len(),
{
    if bits.len() == 0 {
        if n < 8 && be_bits(v, n) == ones(n) {
            Some(Seq::empty())
        } else {
            None
        }
    } else {
        let v1 = 2 * v + (if bits[0] {
            1nat
        } else {
            0nat
        });
        let n1 = n + 1;
        if v1 < table::limit(n1 as u32) {
            let rank = (table::base(n1 as u32) + v1 - table::first(n1 as u32)) as u16;
            if rank == table::EOS_RANK {
                None
            } else {
                match decode_bits(bits.skip(1), 0, 0) {
                    Some(s) => Some(seq![table::symbol(rank)] + s),
                    None => None,
                }
            }
        } else {
            decode_bits(bits.skip(1), v1, n1)
        }
    }
}

/// The string that a sequence of bytes stands for.
pub open spec fn decoded(src: Seq<u8>) -> Result<Seq<u8>, DecoderError> {
    match decode_bits(bits(src), 0, 0) {
        Some(s) => Ok(s),
        None => Err(DecoderError::InvalidHuffmanCode),
    }
}

// ===== Decoding =====

/// Puts `head` in front of a decoded string.
spec fn prepend(head: Seq<u8>, tail: Option<Seq<u8>>) -> Option<Seq<u8>> {
    match tail {
        Some(s) => Some(head + s),
        None => None,
    }
}

/// The first `n` bits of a code word that is not complete yet.
spec fn inner(v: nat, n: nat) -> bool {
    n < 30 && v < pow2(n) && v >= table::limit(n as u32)
}

spec fn pow2(n: nat) -> nat
    decreases n,
{
    if n == 0 {
        1
    } else {
        2 * pow2((n - 1) as nat)
    }
}

proof fn pow2_values()
    ensures
        pow2(0) == 1,
        pow2(1) == 2,
        pow2(2) == 4,
        pow2(3) == 8,
        pow2(4) == 16,
        pow2(5) == 32,
        pow2(6) == 64,
        pow2(7) == 128,
        pow2(30) == 0x4000_0000,
{
    reveal_with_fuel(pow2, 16);
    assert(pow2(15) == 0x8000);
    assert(pow2(30) == 0x4000_0000);
}

proof fn pow2_monotonic(a: nat, b: nat)
    requires
        a <= b,
    ensures
        pow2(a) <= pow2(b),
    decreases b,
{
    if a < b {
        pow2_monotonic(a, (b - 1) as nat);
    }
}

/// All bits of `be_bits(v, n)` are set exactly if `v` is the largest such number.
proof fn be_bits_ones(v: nat, n: nat)
    requires
        v < pow2(n),
    ensures
        (be_bits(v, n) == ones(n)) <==> v == pow2(n) - 1,
        be_bits(v, n).len() == n,
    decreases n,
{
    if n > 0 {
        be_bits_ones(v / 2, (n - 1) as nat);
        let b = be_bits(v, n);
        let prefix = be_bits(v / 2, (n - 1) as nat);
        assert(ones(n).drop_last() =~= ones((n - 1) as nat));
        if b == ones(n) {
            assert(b.drop_last() =~= prefix);
            assert(b.last());
        }
        if v == pow2(n) - 1 {
            assert(b =~= ones(n));
        }
    } else {
        assert(be_bits(v, n) =~= ones(n));
    }
}

/// Decodes a Huffman coded string.
#[verifier::rlimit(40)]
pub fn decode(src: &[u8]) -> (r: Result<Vec<u8>, DecoderError>)
    ensures
        util::viewed(r) == decoded(src@),
{
    let ghost all = bits(src@);
    let mut out: Vec<u8> = Vec::new();
    let mut v: u32 = 0;
    let mut n: u32 = 0;
    let mut i: usize = 0;
    proof {
        pow2_values();
        assert(all.skip(0) =~= all);
        assert(decode_bits(all, 0, 0) == prepend(out@, decode_bits(all.skip(0), 0, 0))) by {
            match decode_bits(all, 0, 0) {
                Some(s) => assert(out@ + s =~= s),
                None => {},
            }
        }
    }
    while i < src.len()
        invariant
            i <= src@.len(),
            all == bits(src@),
            inner(v as nat, n as nat),
            decode_bits(all, 0, 0) == prepend(
                out@,
                decode_bits(all.skip(8 * i as int), v as nat, n as nat),
            ),
        decreases src@.len() - i,
    {
        let byte: u8 = src[i];
        let mut unit: u8 = 128;
        let mut j: u32 = 0;
        while j < 8
            invariant
                j <= 8,
                i < src@.len(),
                byte == src@[i as int],
                unit == weight(j as int),
                all == bits(src@),
                inner(v as nat, n as nat),
                decode_bits(all, 0, 0) == prepend(
                    out@,
                    decode_bits(all.skip(8 * i + j), v as nat, n as nat),
                ),
            decreases 8 - j,
        {
            let bit: bool = (byte / unit) % 2 == 1;
            let ghost rest = all.skip(8 * i + j);
            proof {
                assert((8 * i + j) / 8 == i && (8 * i + j) % 8 == j);
                assert(rest[0] == all[8 * i + j]);
                assert(all[8 * i + j] == bit);
                assert(rest.skip(1) =~= all.skip(8 * i + j + 1));
                pow2_values();
                pow2_monotonic((n + 1) as nat, 30);
                assert(pow2((n + 1) as nat) == 2 * pow2(n as nat));
                table::limit_bounds((n + 1) as u32);
            }
            let v1: u32 = 2 * v + (if bit {
                1
            } else {
                0
            });
            let n1: u32 = n + 1;
            if v1 < table::limit_of(n1) {
                let rank: u32 = table::base_of(n1) + (v1 - 2 * table::limit_of(n));
                if rank == table::EOS_RANK as u32 {
                    return Err(DecoderError::InvalidHuffmanCode);
                }
                let sym: u8 = table::symbol_of(rank as u16);
                let ghost before = out@;
                out.push(sym);
                v = 0;
                n = 0;
                proof {
                    pow2_values();
                    match decode_bits(rest.skip(1), 0, 0) {
                        Some(s) => {
                            assert(before + (seq![sym] + s) =~= before.push(sym) + s);
                        },
                        None => {},
                    }
                }
            } else {
                v = v1;
                n = n1;
                proof {
                    if n == 30 {
                        assert(false);
                    }
                }
            }
            unit = unit / 2;
            j += 1;
        }
        assert(8 * i + 8 == 8 * (i + 1));
        i += 1;
    }
    proof {
        assert(all.skip(8 * i as int) =~= Seq::empty());
        be_bits_ones(v as nat, n as nat);
        pow2_values();
    }
    let full: bool = match n {
        0 => true,
        1 => v == 1,
        2 => v == 3,
        3 => v == 7,
        4 => v == 15,
        5 => v == 31,
        6 => v == 63,
        7 => v == 127,
        _ => false,
    };
    if full {
        assert(out@ + Seq::<u8>::empty() =~= out@);
        Ok(out)
    } else {
        Err(DecoderError::InvalidHuffmanCode)
    }
}

// ===== Encoding =====

/// Bytes in the making: the bits of the last one are not complete.
struct BitWriter {
    out: Vec<u8>,
    cur: u8,
    cnt: u32,
}

impl BitWriter {
    /// `b` was written behind `head`.
    spec fn holds(self, head: Seq<u8>, b: Seq<bool>) -> bool {
        &&& self.out@ == head + bytes_of(b)
        &&& self.cnt == b.len() % 8
        &&& self.cur == value(b.skip(b.len() - b.len() % 8))
    }

    fn put(&mut self, bit: bool, Ghost(head): Ghost<Seq<u8>>, Ghost(b): Ghost<Seq<bool>>)
        requires
            old(self).holds(head, b),
        ensures
            final(self).holds(head, b.push(bit)),
    {
        let ghost b1 = b.push(bit);
        let ghost k = b.len() - b.len() % 8;
        let ghost tail = b.skip(k);
        proof {
            value_bound(tail);
            pow2_values();
            pow2_monotonic(tail.len(), 7);
            assert(b1.skip(k) =~= tail.push(bit));
            assert(tail.push(bit).drop_last() =~= tail);
        }
        self.cur = 2 * self.cur + (if bit {
            1
        } else {
            0
        });
        self.cnt += 1;
        if self.cnt == 8 {
            self.out.push(self.cur);
            self.cur = 0;
            self.cnt = 0;
            proof {
                assert(b1.len() % 8 == 0);
                assert(b1.subrange(k, k + 8) =~= b1.skip(k));
                assert(b1.skip(b1.len() as int) =~= Seq::empty());
                bytes_of_prefix(b, bit);
                assert(bytes_of(b1) =~= bytes_of(b).push(value(b1.subrange(k, k + 8)) as u8));
                assert(self.out@ =~= head + bytes_of(b1));
            }
        } else {
            proof {
                bytes_of_prefix(b, bit);
                assert(bytes_of(b1) =~= bytes_of(b));
            }
        }
    }

    /// Writes the `n` low bits of `v`.
    fn put_all(&mut self, v: u32, n: u32, Ghost(head): Ghost<Seq<u8>>, Ghost(b): Ghost<Seq<bool>>)
        requires
            old(self).holds(head, b),
        ensures
            final(self).holds(head, b + be_bits(v as nat, n as nat)),
        decreases n,
    {
        if n == 0 {
            assert(b + be_bits(v as nat, 0) =~= b);
            return;
        }
        self.put_all(v / 2, n - 1, Ghost(head), Ghost(b));
        let ghost b1 = b + be_bits((v / 2) as nat, (n - 1) as nat);
        self.put(v % 2 == 1, Ghost(head), Ghost(b1));
        assert(b1.push(v % 2 == 1) =~= b + be_bits(v as nat, n as nat));
    }
}

/// A number of `n` bits is less than `2^n`.
proof fn value_bound(b: Seq<bool>)
    ensures
        value(b) < pow2(b.len()),
    decreases b.len(),
{
    if b.len() > 0 {
        value_bound(b.drop_last());
    }
}

/// One more bit leaves the complete bytes as they are.
proof fn bytes_of_prefix(b: Seq<bool>, bit: bool)
    ensures
        forall|i: int|
            0 <= i < b.len() / 8 ==> bytes_of(b.push(bit))[i] == #[trigger] bytes_of(b)[i],
{
    assert forall|i: int| 0 <= i < b.len() / 8 implies bytes_of(b.push(bit))[i]
        == #[trigger] bytes_of(b)[i] by {
        assert(b.push(bit).subrange(8 * i, 8 * i + 8) =~= b.subrange(8 * i, 8 * i + 8));
    }
}

/// The bits of a string with one more symbol.
proof fn string_bits_push(s: Seq<u8>, sym: u8)
    ensures
        string_bits(s.push(sym)) == string_bits(s) + symbol_bits(sym),
    decreases s.len(),
{
    let t = s.push(sym);
    if s.len() == 0 {
        assert(t.skip(1) =~= Seq::empty());
        assert(string_bits(t.skip(1)) =~= Seq::empty());
        assert(string_bits(t) =~= string_bits(s) + symbol_bits(sym));
    } else {
        string_bits_push(s.skip(1), sym);
        assert(t.skip(1) =~= s.skip(1).push(sym));
        assert(string_bits(t) =~= string_bits(s) + symbol_bits(sym));
    }
}

/// Appends a string in Huffman code.
pub fn encode(src: &[u8], dst: &mut Vec<u8>)
    ensures
        final(dst)@ == old(dst)@ + encoded(src@),
{
    let ghost head = dst@;
    let mut w = BitWriter { out: Vec::new(), cur: 0, cnt: 0 };
    w.out.append(dst);
    let ghost none = Seq::<bool>::empty();
    assert(bytes_of(none) =~= Seq::empty());
    assert(none.skip(0) =~= none);
    assert(w.out@ =~= head + bytes_of(none));
    let mut i: usize = 0;
    assert(src@.take(0) =~= Seq::empty());
    while i < src.len()
        invariant
            i <= src@.len(),
            w.holds(head, string_bits(src@.take(i as int))),
        decreases src@.len() - i,
    {
        let rank: u16 = table::rank_of(src[i]);
        proof {
            table::rank_inverse(src@[i as int]);
            table::code_len_bounds(rank);
        }
        let len: u32 = table::code_len_of(rank);
        proof {
            table::limit_bounds(len);
        }
        let code: u32 = 2 * table::limit_of(len - 1) + (rank as u32 - table::base_of(len));
        let ghost b = string_bits(src@.take(i as int));
        w.put_all(code, len, Ghost(head), Ghost(b));
        proof {
            string_bits_push(src@.take(i as int), src@[i as int]);
            assert(src@.take(i + 1) =~= src@.take(i as int).push(src@[i as int]));
        }
        i += 1;
    }
    assert(src@.take(i as int) =~= src@);
    let ghost all = string_bits(src@);
    let ghost mut k: nat = 0;
    assert(all + ones(0) =~= all);
    while w.cnt != 0
        invariant
            w.holds(head, all + ones(k)),
            k <= padding(all.len()),
            all == string_bits(src@),
        decreases padding(all.len()) - k,
    {
        w.put(true, Ghost(head), Ghost(all + ones(k)));
        proof {
            assert((all + ones(k)).push(true) =~= all + ones(k + 1));
            k = k + 1;
        }
    }
    assert(k == padding(all.len()));
    dst.append(&mut w.out);
    assert(dst@ =~= head + encoded(src@));
}

// ===== Laws =====

/// The digits of a sum of distinct powers of two.
proof fn binary_digits(a: u8, b: u8, c: u8, d: u8, e: u8, f: u8, g: u8, h: u8, v: u8)
    requires
        a <= 1 && b <= 1 && c <= 1 && d <= 1 && e <= 1 && f <= 1 && g <= 1 && h <= 1,
        v == 128 * a + 64 * b + 32 * c + 16 * d + 8 * e + 4 * f + 2 * g + h,
    ensures
        (v / 128) % 2 == a && (v / 64) % 2 == b && (v / 32) % 2 == c && (v / 16) % 2 == d,
        (v / 8) % 2 == e && (v / 4) % 2 == f && (v / 2) % 2 == g && (v / 1) % 2 == h,
{
    assert((v / 128) % 2 == a && (v / 64) % 2 == b && (v / 32) % 2 == c && (v / 16) % 2 == d && (v
        / 8) % 2 == e && (v / 4) % 2 == f && (v / 2) % 2 == g && (v / 1) % 2 == h)
        by (bit_vector)
        requires
            a <= 1 && b <= 1 && c <= 1 && d <= 1 && e <= 1 && f <= 1 && g <= 1 && h <= 1,
            v == 128 * a + 64 * b + 32 * c + 16 * d + 8 * e + 4 * f + 2 * g + h,
    ;
}

/// A bit as a number.
spec fn digit(bit: bool) -> u8 {
    if bit {
        1
    } else {
        0
    }
}

/// One step of `value`.
proof fn value_step(b: Seq<bool>, i: int)
    requires
        0 <= i < b.len(),
    ensures
        value(b.take(i + 1)) == 2 * value(b.take(i)) + digit(b[i]),
{
    assert(b.take(i + 1).drop_last() =~= b.take(i));
}

/// Eight bits and the byte that they make up.
proof fn byte_bits(b: Seq<bool>, j: int)
    requires
        b.len() == 8,
        0 <= j < 8,
    ensures
        value(b) < 256,
        ((value(b) as u8) as int / weight(j)) % 2 == 1 <==> b[j],
{
    value_step(b, 0);
    value_step(b, 1);
    value_step(b, 2);
    value_step(b, 3);
    value_step(b, 4);
    value_step(b, 5);
    value_step(b, 6);
    value_step(b, 7);
    assert(b.take(0).len() == 0);
    assert(b.take(8) =~= b);
    binary_digits(
        digit(b[0]),
        digit(b[1]),
        digit(b[2]),
        digit(b[3]),
        digit(b[4]),
        digit(b[5]),
        digit(b[6]),
        digit(b[7]),
        value(b) as u8,
    );
}

/// Bits that were written as bytes are the bits of those bytes.
proof fn bits_of_bytes(b: Seq<bool>)
    requires
        b.len() % 8 == 0,
    ensures
        bits(bytes_of(b)) == b,
{
    let y = bytes_of(b);
    assert forall|p: int| 0 <= p < b.len() implies bits(y)[p] == b[p] by {
        let i = p / 8;
        let part = b.subrange(8 * i, 8 * i + 8);
        byte_bits(part, p % 8);
        assert(part[p % 8] == b[p]);
    }
    assert(bits(y) =~= b);
}

/// The bits of an incomplete code word lead to the state that it stands for.
proof fn decode_inner(v: nat, n: nat, rest: Seq<bool>)
    requires
        inner(v, n),
    ensures
        decode_bits(be_bits(v, n) + rest, 0, 0) == decode_bits(rest, v, n),
        be_bits(v, n).len() == n,
    decreases n,
{
    be_bits_ones(v, n);
    if n == 0 {
        assert(be_bits(v, n) + rest =~= rest);
    } else {
        table::limit_bounds(n as u32);
        let bit = v % 2 == 1;
        let tail = seq![bit] + rest;
        decode_inner(v / 2, (n - 1) as nat, tail);
        assert(be_bits(v, n) + rest =~= be_bits(v / 2, (n - 1) as nat) + tail);
        assert(tail.skip(1) =~= rest);
    }
}

/// A complete code word is read as its symbol.
proof fn decode_symbol(sym: u8, rest: Seq<bool>)
    ensures
        decode_bits(symbol_bits(sym) + rest, 0, 0) == prepend(
            seq![sym],
            decode_bits(rest, 0, 0),
        ),
{
    let r = table::rank(sym);
    table::rank_inverse(sym);
    table::code_len_bounds(r);
    let n = table::code_len(r) as nat;
    table::limit_bounds(n as u32);
    let c = code(r);
    let bit = c % 2 == 1;
    let tail = seq![bit] + rest;
    assert(c < table::limit(n as u32));
    assert(inner(c / 2, (n - 1) as nat)) by {
        if n > 1 {
            table::limit_bounds((n - 1) as u32);
        }
        inner_bound(n);
    }
    decode_inner(c / 2, (n - 1) as nat, tail);
    assert(symbol_bits(sym) + rest =~= be_bits(c / 2, (n - 1) as nat) + tail);
    assert(tail.skip(1) =~= rest);
}

/// Code words of `n` bits are less than `2^n`.
proof fn inner_bound(n: nat)
    requires
        1 <= n <= 30,
    ensures
        table::limit(n as u32) <= pow2(n),
    decreases 30 - n,
{
    if n < 30 {
        inner_bound(n + 1);
        table::limit_bounds((n + 1) as u32);
    } else {
        pow2_values();
    }
}

/// The bits of a string and up to seven set bits are read as the string.
proof fn decode_string(s: Seq<u8>, k: nat)
    requires
        k < 8,
    ensures
        decode_bits(string_bits(s) + ones(k), 0, 0) == Some(s),
    decreases s.len(),
{
    if s.len() == 0 {
        let v = (pow2(k) - 1) as nat;
        pow2_values();
        be_bits_ones(v, k);
        assert(inner(v, k));
        decode_inner(v, k, Seq::empty());
        assert(string_bits(s) + ones(k) =~= ones(k) + Seq::<bool>::empty());
        assert(s =~= Seq::empty());
    } else {
        decode_string(s.skip(1), k);
        let rest = string_bits(s.skip(1)) + ones(k);
        decode_symbol(s[0], rest);
        assert(string_bits(s) + ones(k) =~= symbol_bits(s[0]) + rest);
        assert(seq![s[0]] + s.skip(1) =~= s);
    }
}

/// What was written in Huffman code reads back as itself.
pub proof fn huffman_round_trip(s: Seq<u8>)
    ensures
        decoded(encoded(s)) == Ok::<Seq<u8>, DecoderError>(s),
{
    let b = string_bits(s) + ones(padding(string_bits(s).len()));
    bits_of_bytes(b);
    decode_string(s, padding(string_bits(s).len()));
}

} // verus!
