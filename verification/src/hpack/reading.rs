//! What the bytes of a header block stand for, written out byte by byte.
use vstd::arithmetic::power::pow;
use vstd::prelude::*;

use crate::hpack::decoder;
use crate::hpack::encoder::{self, Repr};
use crate::hpack::header::{HeaderView, Raw};
use crate::hpack::primitive;
use crate::hpack::table::{self, TableView};
use crate::hpack::{DecoderError, NeedMore};
use crate::http;

verus! {

// ===== Integers =====

proof fn prefix_kept(flags: u8, x: u8, mask: u8)
    requires
        flags as int % (mask + 1) == 0,
        x <= mask,
    ensures
        (flags + x) % (mask + 1) == x,
{
    let m = mask + 1;
    vstd::arithmetic::div_mod::lemma_fundamental_div_mod(flags as int, m);
    vstd::arithmetic::div_mod::lemma_fundamental_div_mod_converse(
        flags + x,
        m,
        flags as int / m,
        x as int,
    );
}

/// The groups of seven bits of a number, least significant first.
pub open spec fn groups_value(groups: Seq<u8>) -> int
    decreases groups.len(),
{
    if groups.len() == 0 {
        0
    } else {
        groups_value(groups.drop_last()) + (groups.last() as int % 128) * pow(
            128,
            (groups.len() - 1) as nat,
        )
    }
}

proof fn groups_shift(groups: Seq<u8>)
    requires
        groups.len() > 0,
    ensures
        groups_value(groups) == groups[0] as int % 128 + 128 * groups_value(groups.skip(1)),
    decreases groups.len(),
{
    reveal(pow);
    let rest = groups.skip(1);
    if groups.len() == 1 {
        assert(groups.drop_last() =~= Seq::<u8>::empty());
        assert(rest =~= Seq::<u8>::empty());
        assert(pow(128, 0) == 1);
        assert(groups_value(Seq::<u8>::empty()) == 0);
        assert(groups_value(groups) == groups[0] as int % 128);
    } else {
        let init = groups.drop_last();
        groups_shift(init);
        assert(init.skip(1) =~= rest.drop_last());
        let d = groups.last() as int % 128;
        let n = (groups.len() - 1) as nat;
        assert(pow(128, n) == 128 * pow(128, (n - 1) as nat));
        assert(rest.last() == groups.last());
        let p = pow(128, (n - 1) as nat);
        assert(d * (128 * p) == 128 * (d * p)) by (nonlinear_arith);
    }
}

proof fn groups_are_read(groups: Seq<u8>, rest: Seq<u8>, k: nat)
    requires
        1 <= groups.len() <= k,
        forall|i: int| 0 <= i < groups.len() - 1 ==> #[trigger] groups[i] >= 128,
        groups.last() < 128,
    ensures
        primitive::varint(groups + rest, k) == Ok::<(nat, nat), DecoderError>(
            (groups_value(groups) as nat, groups.len()),
        ),
        groups_value(groups) >= 0,
    decreases groups.len(),
{
    groups_shift(groups);
    let tail = groups.skip(1);
    if groups.len() == 1 {
        assert(tail =~= Seq::<u8>::empty());
        assert(groups_value(Seq::<u8>::empty()) == 0);
        assert((groups + rest)[0] == groups[0]);
    } else {
        assert forall|i: int| 0 <= i < tail.len() - 1 implies #[trigger] tail[i] >= 128 by {
            assert(tail[i] == groups[i + 1]);
        }
        groups_are_read(tail, rest, (k - 1) as nat);
        assert((groups + rest).skip(1) =~= tail + rest);
        assert((groups + rest)[0] == groups[0]);
        assert(groups[0] >= 128);
    }
}

/// A number below the largest that fits the prefix stands in the prefix alone. A larger
/// one fills the prefix, and what it has more follows in at most four groups of seven
/// bits, least significant first: all but the last have their high bit set.
pub proof fn integers_are_read(mask: u8, flags: u8, v: u8, groups: Seq<u8>, rest: Seq<u8>)
    requires
        mask == 127 || mask == 63 || mask == 31 || mask == 15,
        flags as int % (mask + 1) == 0,
        flags + mask <= 255,
        v < mask,
        1 <= groups.len() <= 4,
        forall|i: int| 0 <= i < groups.len() - 1 ==> #[trigger] groups[i] >= 128,
        groups.last() < 128,
    ensures
        primitive::int_at(seq![(flags + v) as u8] + rest, mask) == Ok::<(nat, nat), DecoderError>(
            (v as nat, 1),
        ),
        primitive::int_at(seq![(flags + mask) as u8] + groups + rest, mask) == Ok::<
            (nat, nat),
            DecoderError,
        >(((mask + groups_value(groups)) as nat, groups.len() + 1)),
        primitive::int_at(Seq::<u8>::empty(), mask) == Err::<(nat, nat), DecoderError>(
            DecoderError::NeedMore(NeedMore::IntegerUnderflow),
        ),
        primitive::int_at(seq![(flags + mask) as u8], mask) == Err::<(nat, nat), DecoderError>(
            DecoderError::NeedMore(NeedMore::IntegerUnderflow),
        ),
{
    reveal(primitive::int_at);
    let small = seq![(flags + v) as u8] + rest;
    let head = seq![(flags + mask) as u8];
    let large = head + groups + rest;
    assert(small[0] == flags + v);
    assert(large[0] == flags + mask);
    prefix_kept(flags, v, mask);
    prefix_kept(flags, mask, mask);
    assert(large.skip(1) =~= groups + rest);
    groups_are_read(groups, rest, 4);
    assert(head[0] == flags + mask);
    assert(head.skip(1) =~= Seq::<u8>::empty());
}

/// A number that goes on behind its fourth group is too large.
pub proof fn integers_are_bounded(mask: u8, flags: u8, groups: Seq<u8>, rest: Seq<u8>)
    requires
        mask == 127 || mask == 63 || mask == 31 || mask == 15,
        flags as int % (mask + 1) == 0,
        flags + mask <= 255,
        groups.len() == 4,
        forall|i: int| 0 <= i < 4 ==> #[trigger] groups[i] >= 128,
    ensures
        primitive::int_at(seq![(flags + mask) as u8] + groups + rest, mask) == Err::<
            (nat, nat),
            DecoderError,
        >(DecoderError::IntegerOverflow),
{
    reveal(primitive::int_at);
    let all = seq![(flags + mask) as u8] + groups + rest;
    assert(all[0] == flags + mask);
    prefix_kept(flags, mask, mask);
    reveal_with_fuel(primitive::varint, 5);
    let src = all.skip(1);
    assert(src[0] == groups[0]);
    assert(src.skip(1)[0] == groups[1]);
    assert(src.skip(1).skip(1)[0] == groups[2]);
    assert(src.skip(1).skip(1).skip(1)[0] == groups[3]);
}

// ===== Strings =====

/// A string that is not compressed is its length and its bytes.
pub proof fn plain_strings_are_read(s: Seq<u8>, rest: Seq<u8>)
    requires
        s.len() < 127,
    ensures
        primitive::string_at(seq![s.len() as u8] + s + rest) == Ok::<(Seq<u8>, nat), DecoderError>(
            (s, s.len() + 1),
        ),
{
    reveal(primitive::string_at);
    reveal(primitive::int_at);
    let all = seq![s.len() as u8] + s + rest;
    assert(all[0] == s.len());
    prefix_kept(0, s.len() as u8, 127);
    assert(all.subrange(1, (1 + s.len()) as int) =~= s);
}

/// A string whose end is missing waits for more.
pub proof fn short_strings_wait(len: u8, huffman: bool, s: Seq<u8>)
    requires
        s.len() < len < 127,
    ensures
        primitive::string_at(
            seq![
                if huffman {
                    (128 + len) as u8
                } else {
                    len
                },
            ] + s,
        ) == Err::<(Seq<u8>, nat), DecoderError>(
            DecoderError::NeedMore(NeedMore::StringUnderflow),
        ),
{
    reveal(primitive::string_at);
    reveal(primitive::int_at);
    let first = if huffman {
        (128 + len) as u8
    } else {
        len
    };
    let all = seq![first] + s;
    assert(all[0] == first);
    prefix_kept(0, len, 127);
    prefix_kept(128, len, 127);
}

// ===== Header fields =====

/// The entries of both tables, with their numbers: the fixed ones first, then those of
/// this connection, newest first.
pub proof fn entries_are_numbered(table: TableView, i: nat)
    ensures
        table.get(0) == Err::<Raw, DecoderError>(DecoderError::InvalidTableIndex),
        i < table.entries.len() ==> table.get(62 + i) == Ok::<Raw, DecoderError>(
            table.entries[i as int],
        ),
        i >= table.entries.len() ==> table.get(62 + i) == Err::<Raw, DecoderError>(
            DecoderError::InvalidTableIndex,
        ),
        1 <= i <= 61 ==> table.get(i) == (TableView { entries: Seq::empty(), max_size: 0 }).get(i),
        1 <= i <= 61 ==> table.get(i) is Ok,
{
}

/// A field that is an entry is one byte for a small number, and does not change the table.
pub proof fn indexed_fields_are_read(
    table: TableView,
    limit: nat,
    can_resize: bool,
    i: u8,
    rest: Seq<u8>,
)
    requires
        i < 127,
    ensures
        ({
            let r = decoder::step(table, limit, can_resize, seq![(128 + i) as u8] + rest);
            match table.get(i as nat) {
                Err(e) => r == Err::<decoder::Step, DecoderError>(e),
                Ok(raw) => match HeaderView::parsed(raw.0, raw.1) {
                    Err(e) => r == Err::<decoder::Step, DecoderError>(e),
                    Ok(h) => r is Ok && r->Ok_0.header == Some(h) && r->Ok_0.table == table
                        && r->Ok_0.len == 1,
                },
            }
        }),
{
    reveal(decoder::step);
    reveal(primitive::int_at);
    let all = seq![(128 + i) as u8] + rest;
    assert(all[0] == 128 + i);
    prefix_kept(128, i, 127);
}

proof fn named_literal(table: TableView, mask: u8, flags: u8, name: Seq<u8>, value: Seq<u8>, rest: Seq<u8>)
    requires
        mask == 63 || mask == 15,
        flags as int % (mask + 1) == 0,
        flags + mask <= 255,
        name.len() < 127,
        value.len() < 127,
    ensures
        decoder::literal(
            table,
            mask,
            seq![flags] + (seq![name.len() as u8] + name + (seq![value.len() as u8] + value + rest)),
        ) == Ok::<(Raw, nat), DecoderError>(((name, value), 3 + name.len() + value.len())),
{
    reveal(decoder::literal);
    reveal(primitive::int_at);
    let second = seq![value.len() as u8] + value + rest;
    let first = seq![name.len() as u8] + name + second;
    let all = seq![flags] + first;
    assert(all[0] == flags);
    prefix_kept(flags, 0, mask);
    plain_strings_are_read(name, second);
    plain_strings_are_read(value, rest);
    assert(all.skip(1) =~= first);
    assert(all.skip((1 + (name.len() + 1)) as int) =~= second);
}

proof fn indexed_literal(table: TableView, mask: u8, flags: u8, i: u8, value: Seq<u8>, rest: Seq<u8>)
    requires
        mask == 63 || mask == 15,
        flags as int % (mask + 1) == 0,
        flags + mask <= 255,
        0 < i < mask,
        value.len() < 127,
        table.get(i as nat) is Ok,
    ensures
        decoder::literal(
            table,
            mask,
            seq![(flags + i) as u8] + (seq![value.len() as u8] + value + rest),
        ) == Ok::<(Raw, nat), DecoderError>(
            ((table.get(i as nat)->Ok_0.0, value), 2 + value.len()),
        ),
{
    reveal(decoder::literal);
    reveal(primitive::int_at);
    let second = seq![value.len() as u8] + value + rest;
    let all = seq![(flags + i) as u8] + second;
    assert(all[0] == flags + i);
    prefix_kept(flags, i, mask);
    plain_strings_are_read(value, rest);
    assert(all.skip(1) =~= second);
}

/// What a field in full comes to.
pub open spec fn field_read(
    r: Result<decoder::Step, DecoderError>,
    name: Seq<u8>,
    value: Seq<u8>,
    table: TableView,
    len: nat,
) -> bool {
    match HeaderView::parsed(name, value) {
        Err(e) => r == Err::<decoder::Step, DecoderError>(e),
        Ok(h) => r is Ok && r->Ok_0.header == Some(h) && r->Ok_0.table == table && r->Ok_0.len
            == len,
    }
}

/// A field with its name and value in full is that field, whatever the first byte says of
/// the table: with 0x40 it becomes the newest entry, with 0x00 and 0x10 it becomes none.
pub proof fn literal_fields_are_read(
    table: TableView,
    limit: nat,
    can_resize: bool,
    name: Seq<u8>,
    value: Seq<u8>,
    rest: Seq<u8>,
)
    requires
        name.len() < 127,
        value.len() < 127,
    ensures
        ({
            let text = seq![name.len() as u8] + name + (seq![value.len() as u8] + value + rest);
            let len = 3 + name.len() + value.len();
            let kept = decoder::step(table, limit, can_resize, seq![0x40u8] + text);
            let plain = decoder::step(table, limit, can_resize, seq![0x00u8] + text);
            let never = decoder::step(table, limit, can_resize, seq![0x10u8] + text);
            &&& field_read(kept, name, value, table.inserted((name, value)), len)
            &&& field_read(plain, name, value, table, len)
            &&& field_read(never, name, value, table, len)
        }),
{
    reveal(decoder::step);
    let text = seq![name.len() as u8] + name + (seq![value.len() as u8] + value + rest);
    named_literal(table, 63, 0x40, name, value, rest);
    named_literal(table, 15, 0x00, name, value, rest);
    named_literal(table, 15, 0x10, name, value, rest);
    assert((seq![0x40u8] + text)[0] == 0x40);
    assert((seq![0x00u8] + text)[0] == 0x00);
    assert((seq![0x10u8] + text)[0] == 0x10);
}

/// A field whose name is an entry has the name of that entry.
pub proof fn named_fields_are_read(
    table: TableView,
    limit: nat,
    can_resize: bool,
    i: u8,
    value: Seq<u8>,
    rest: Seq<u8>,
)
    requires
        value.len() < 127,
        0 < i < 63,
        table.get(i as nat) is Ok,
    ensures
        ({
            let text = seq![value.len() as u8] + value + rest;
            let name = table.get(i as nat)->Ok_0.0;
            let len = 2 + value.len();
            let kept = decoder::step(table, limit, can_resize, seq![(0x40 + i) as u8] + text);
            let plain = decoder::step(table, limit, can_resize, seq![i] + text);
            let never = decoder::step(table, limit, can_resize, seq![(0x10 + i) as u8] + text);
            &&& field_read(kept, name, value, table.inserted((name, value)), len)
            &&& i < 15 ==> field_read(plain, name, value, table, len)
            &&& i < 15 ==> field_read(never, name, value, table, len)
        }),
{
    reveal(decoder::step);
    let text = seq![value.len() as u8] + value + rest;
    indexed_literal(table, 63, 0x40, i, value, rest);
    assert((seq![(0x40 + i) as u8] + text)[0] == 0x40 + i);
    if i < 15 {
        indexed_literal(table, 15, 0x00, i, value, rest);
        indexed_literal(table, 15, 0x10, i, value, rest);
        assert((seq![i] + text)[0] == i);
        assert((seq![(0x10 + i) as u8] + text)[0] == 0x10 + i);
    }
}

/// The size of the table may change before the first field of a block, up to the limit
/// of this side.
pub proof fn size_changes_are_read(
    table: TableView,
    limit: nat,
    can_resize: bool,
    n: u8,
    rest: Seq<u8>,
)
    requires
        n < 31,
    ensures
        ({
            let r = decoder::step(table, limit, can_resize, seq![(0x20 + n) as u8] + rest);
            if can_resize && n <= limit {
                r is Ok && r->Ok_0.header is None && r->Ok_0.table == table.resized(n as nat)
                    && r->Ok_0.len == 1
            } else {
                r == Err::<decoder::Step, DecoderError>(DecoderError::InvalidMaxDynamicSize)
            }
        }),
{
    reveal(decoder::step);
    reveal(primitive::int_at);
    let all = seq![(0x20 + n) as u8] + rest;
    assert(all[0] == 0x20 + n);
    prefix_kept(0x20, n, 31);
}

// ===== The table =====

/// The entries that stay are the newest ones, in their order, and as many as fit: with
/// one more of them the table would be too large. An entry takes its name, its value and
/// 32 bytes.
pub proof fn newest_entries_stay(entries: Seq<Raw>, room: nat)
    ensures
        ({
            let kept = table::fit(entries, room as int);
            &&& kept.len() <= entries.len()
            &&& kept == entries.take(kept.len() as int)
            &&& table::total(kept) <= room
            &&& kept.len() < entries.len() ==> table::total(
                entries.take(kept.len() as int + 1),
            ) > room
        }),
    decreases entries.len(),
{
    table::fit_bounds(entries, room as int);
    if entries.len() > 0 && table::total(entries) > room {
        let init = entries.drop_last();
        newest_entries_stay(init, room);
        let n = table::fit(init, room as int).len();
        if n < init.len() {
            assert(init.take(n as int + 1) =~= entries.take(n as int + 1));
        } else {
            assert(entries.take(n as int + 1) =~= entries);
        }
    }
}

/// The size of a list of entries.
pub proof fn entries_are_sized(entries: Seq<Raw>, name: Seq<u8>, value: Seq<u8>)
    ensures
        table::total(Seq::<Raw>::empty()) == 0,
        table::total(entries.push((name, value))) == table::total(entries) + name.len()
            + value.len() + 32,
{
    assert(entries.push((name, value)).drop_last() =~= entries);
}

/// A new entry has the first number behind the fixed ones, and those that were there
/// before move up by one. One that is too large for the table empties it.
pub proof fn new_entries_come_first(table: TableView, name: Seq<u8>, value: Seq<u8>, i: nat)
    ensures
        ({
            let next = table.inserted((name, value));
            let size = name.len() + value.len() + 32;
            &&& next.max_size == table.max_size
            &&& table::total(next.entries) <= table.max_size
            &&& size > table.max_size ==> next.entries.len() == 0
            &&& size <= table.max_size ==> {
                &&& next.get(62) == Ok::<Raw, DecoderError>((name, value))
                &&& next.get(63 + i) is Ok ==> next.get(63 + i) == table.get(62 + i)
                &&& table::total(table.entries) + size <= table.max_size ==> next.get(63 + i)
                    == table.get(62 + i)
            }
        }),
{
    let size = name.len() + value.len() + 32;
    if size <= table.max_size {
        let room = (table.max_size - size) as nat;
        newest_entries_stay(table.entries, room);
        table::total_cons((name, value), table::fit(table.entries, room as int));
    }
}

/// A table with a new size has that size, and keeps the newest entries that fit.
pub proof fn tables_are_resized(table: TableView, size: nat, i: int)
    ensures
        ({
            let next = table.resized(size);
            &&& next.max_size == size
            &&& table::total(next.entries) <= size
            &&& 0 <= i < next.entries.len() ==> next.entries[i] == table.entries[i]
            &&& table::total(table.entries) <= size ==> next.entries == table.entries
            &&& next.entries.len() < table.entries.len() ==> table::total(
                table.entries.take(next.entries.len() as int + 1),
            ) > size
        }),
{
    newest_entries_stay(table.entries, size);
}

/// An entry of both tables is a certain field.
pub open spec fn is_entry(table: TableView, i: nat, name: Seq<char>, value: Seq<char>) -> bool {
    table.get(i) == Ok::<Raw, DecoderError>((http::text_bytes(name), http::text_bytes(value)))
}

/// An entry of both tables has a certain name.
pub open spec fn is_name(table: TableView, i: nat, name: Seq<char>) -> bool {
    table.get(i) matches Ok(raw) && raw.0 == http::text_bytes(name)
}

/// The pseudo-headers among the fixed entries, whatever the table of the connection is.
pub proof fn fixed_pseudo_headers(table: TableView)
    ensures
        is_entry(table, 1, ":authority"@, ""@),
        is_entry(table, 2, ":method"@, "GET"@),
        is_entry(table, 3, ":method"@, "POST"@),
        is_entry(table, 4, ":path"@, "/"@),
        is_entry(table, 5, ":path"@, "/index.html"@),
        is_entry(table, 6, ":scheme"@, "http"@),
        is_entry(table, 7, ":scheme"@, "https"@),
        is_entry(table, 8, ":status"@, "200"@),
        is_entry(table, 9, ":status"@, "204"@),
        is_entry(table, 10, ":status"@, "206"@),
        is_entry(table, 11, ":status"@, "304"@),
        is_entry(table, 12, ":status"@, "400"@),
        is_entry(table, 13, ":status"@, "404"@),
        is_entry(table, 14, ":status"@, "500"@),
        is_entry(table, 16, "accept-encoding"@, "gzip, deflate"@),
{
}

/// The names of the fields among the fixed entries, whatever the table of the connection
/// is.
pub proof fn fixed_names(table: TableView)
    ensures
        is_name(table, 15, "accept-charset"@),
        is_name(table, 16, "accept-encoding"@),
        is_name(table, 17, "accept-language"@),
        is_name(table, 18, "accept-ranges"@),
        is_name(table, 19, "accept"@),
        is_name(table, 20, "access-control-allow-origin"@),
        is_name(table, 21, "age"@),
        is_name(table, 22, "allow"@),
        is_name(table, 23, "authorization"@),
        is_name(table, 24, "cache-control"@),
        is_name(table, 25, "content-disposition"@),
        is_name(table, 26, "content-encoding"@),
        is_name(table, 27, "content-language"@),
        is_name(table, 28, "content-length"@),
        is_name(table, 29, "content-location"@),
        is_name(table, 30, "content-range"@),
        is_name(table, 31, "content-type"@),
        is_name(table, 32, "cookie"@),
        is_name(table, 33, "date"@),
        is_name(table, 34, "etag"@),
        is_name(table, 35, "expect"@),
        is_name(table, 36, "expires"@),
        is_name(table, 37, "from"@),
        is_name(table, 38, "host"@),
        is_name(table, 39, "if-match"@),
        is_name(table, 40, "if-modified-since"@),
        is_name(table, 41, "if-none-match"@),
        is_name(table, 42, "if-range"@),
        is_name(table, 43, "if-unmodified-since"@),
        is_name(table, 44, "last-modified"@),
        is_name(table, 45, "link"@),
        is_name(table, 46, "location"@),
        is_name(table, 47, "max-forwards"@),
        is_name(table, 48, "proxy-authenticate"@),
        is_name(table, 49, "proxy-authorization"@),
        is_name(table, 50, "range"@),
        is_name(table, 51, "referer"@),
        is_name(table, 52, "refresh"@),
        is_name(table, 53, "retry-after"@),
        is_name(table, 54, "server"@),
        is_name(table, 55, "set-cookie"@),
        is_name(table, 56, "strict-transport-security"@),
        is_name(table, 57, "transfer-encoding"@),
        is_name(table, 58, "user-agent"@),
        is_name(table, 59, "vary"@),
        is_name(table, 60, "via"@),
        is_name(table, 61, "www-authenticate"@),
{
}

/// All fixed fields but one have no value.
pub proof fn fixed_fields_are_empty(table: TableView, i: nat)
    requires
        15 <= i <= 61,
        i != 16,
    ensures
        table.get(i) matches Ok(raw) && raw.1 == http::text_bytes(""@),
{
}

// ===== Writing =====

/// A field that must not be remembered is written in full with the mark for it, or it is
/// an entry already. It does not enter the table.
pub proof fn sensitive_fields_are_marked(table: TableView, name: Seq<u8>, value: Seq<u8>)
    ensures
        ({
            let h = HeaderView::Field { name, value, sensitive: true };
            let (next, bytes) = encoder::encode_all(table, seq![h]);
            &&& next == table
            &&& bytes.len() > 0
            &&& (0x10 <= bytes[0] < 0x20 || bytes[0] >= 0x80)
        }),
{
    let h = HeaderView::Field { name, value, sensitive: true };
    one_field(table, h);
    reveal(primitive::int_bytes);
    let bytes = encoder::encode_all(table, seq![h]).1;
    match encoder::choice(table, h) {
        Repr::Indexed(i) => {
            assert(bytes == primitive::int_bytes(i, 127, 128));
        },
        Repr::Literal(i) => {
            assert(bytes[0] == primitive::int_bytes(i, 15, 16)[0]);
        },
        Repr::Insert(_) => {},
    }
}

proof fn one_field(table: TableView, h: HeaderView<Seq<u8>>)
    ensures
        ({
            let repr = encoder::choice(table, h);
            encoder::encode_all(table, seq![h]) == (
                encoder::repr_table(table, repr, h),
                encoder::repr_bytes(repr, h),
            )
        }),
{
    reveal_with_fuel(encoder::encode_all, 2);
    assert(seq![h].skip(1) =~= Seq::<HeaderView<Seq<u8>>>::empty());
    let repr = encoder::choice(table, h);
    assert(encoder::repr_bytes(repr, h) + Seq::<u8>::empty() =~= encoder::repr_bytes(repr, h));
}

/// A field that is no fixed entry, is not to be left out of the table and is not too
/// large for it is written in full once. After that it is one byte.
pub proof fn repeated_fields_are_short(table: TableView, h: HeaderView<Seq<u8>>)
    requires
        table.wf(),
        encoder::static_entry_at(h.raw(), 1) is None,
        encoder::entry_at(table.entries, h.raw(), 0) is None,
        !h.skips_index(),
        !h.sensitive(),
        4 * (32 + h.name().len() + h.value().len()) <= 3 * table.max_size,
    ensures
        ({
            let (next, first) = encoder::encode_all(table, seq![h]);
            let (last, again) = encoder::encode_all(next, seq![h]);
            &&& first.len() > 0
            &&& 0x40 <= first[0] < 0x80
            &&& next == table.inserted((h.name(), h.value()))
            &&& again == seq![0xbeu8]
            &&& last == next
        }),
{
    one_field(table, h);
    let (next, first) = encoder::encode_all(table, seq![h]);
    one_field(next, h);
    reveal(primitive::int_bytes);
    let i = encoder::name_index(table, h.name());
    assert(first[0] == primitive::int_bytes(i, 63, 64)[0]);
    assert(next.entries[0] == h.raw());
    assert(encoder::entry_at(next.entries, h.raw(), 0) == Some(0nat));
    assert(encoder::choice(next, h) == Repr::Indexed(62));
    let again = encoder::encode_all(next, seq![h]).1;
    assert(again == primitive::int_bytes(62, 127, 128));
    assert(again =~= seq![190u8]);
}

/// A field that is a fixed entry is written as the number of that entry.
pub proof fn fixed_fields_are_numbers(table: TableView, h: HeaderView<Seq<u8>>, i: nat)
    requires
        1 <= i <= 61,
        table::static_entry(i as usize) == (h.name(), h.value()),
    ensures
        ({
            let (next, bytes) = encoder::encode_all(table, seq![h]);
            &&& next == table
            &&& bytes.len() == 1
            &&& 0x81 <= bytes[0] <= 0x80 + i
            &&& table.get((bytes[0] - 0x80) as nat) == Ok::<Raw, DecoderError>(
                (h.name(), h.value()),
            )
        }),
{
    one_field(table, h);
    fixed_entry_found(h.raw(), i, 1);
    reveal(primitive::int_bytes);
    let k = encoder::static_entry_at(h.raw(), 1)->0;
    assert(encoder::choice(table, h) == Repr::Indexed(k));
    let bytes = encoder::encode_all(table, seq![h]).1;
    assert(bytes == primitive::int_bytes(k, 127, 128));
    assert(bytes =~= seq![(128 + k) as u8]);
}

proof fn fixed_entry_found(raw: Raw, i: nat, from: nat)
    requires
        1 <= from <= i <= 61,
        table::static_entry(i as usize) == raw,
    ensures
        ({
            let r = encoder::static_entry_at(raw, from);
            &&& r is Some
            &&& from <= r->0 <= i
            &&& table::static_entry(r->0 as usize) == raw
        }),
    decreases i - from,
{
    if table::static_entry(from as usize) != raw {
        fixed_entry_found(raw, i, from + 1);
    }
}

/// The table that the peer has asked for last is the one that is used, and it keeps no
/// more than the smallest one that was asked for in between.
pub proof fn last_size_counts(table: TableView, first: usize, second: usize)
    ensures
        ({
            let one = encoder::merged(None, table.max_size, first);
            let two = encoder::merged(one, table.max_size, second);
            &&& encoder::updated_table(table, one).max_size == first
            &&& encoder::updated_table(table, two).max_size == second
            &&& one is Some ==> first <= table.max_size ==> table::total(
                encoder::updated_table(table, two).entries,
            ) <= first
        }),
{
    newest_entries_stay(table.entries, first as nat);
    newest_entries_stay(table.entries, second as nat);
    let small = table.resized(first as nat);
    newest_entries_stay(small.entries, second as nat);
}

} // verus!
