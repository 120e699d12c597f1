//! What a decoder makes of the blocks that an encoder wrote.
use vstd::prelude::*;

use crate::hpack::decoder::{self, Outcome, Step};
use crate::hpack::encoder::{self, Repr, SizeUpdate};
use crate::hpack::header::{self, HeaderView};
use crate::hpack::table::{self, TableView, STATIC_LEN};
use crate::hpack::{huffman, primitive, DecoderError};

verus! {

/// A header that can be written: it is valid, and its strings are shorter than
/// `2^28` bytes in Huffman code.
pub open spec fn encodable(h: HeaderView<Seq<u8>>) -> bool {
    &&& h.wf()
    &&& huffman::encoded(h.name()).len() < primitive::VARINT_LIMIT
    &&& huffman::encoded(h.value()).len() < primitive::VARINT_LIMIT
}

/// The headers as they come off the wire.
pub open spec fn plain_all(headers: Seq<HeaderView<Seq<u8>>>) -> Seq<HeaderView<Seq<u8>>> {
    headers.map_values(|h: HeaderView<Seq<u8>>| h.plain())
}

proof fn static_entry_found(raw: header::Raw, from: nat)
    requires
        1 <= from,
    ensures
        encoder::static_entry_at(raw, from) matches Some(i) ==> 1 <= i <= STATIC_LEN
            && table::static_entry(i as usize) == raw,
    decreases STATIC_LEN + 1 - from,
{
    if from <= STATIC_LEN && table::static_entry(from as usize) != raw {
        static_entry_found(raw, from + 1);
    }
}

proof fn static_name_found(name: Seq<u8>, from: nat)
    requires
        1 <= from,
    ensures
        encoder::static_name_at(name, from) matches Some(i) ==> 1 <= i <= STATIC_LEN
            && table::static_entry(i as usize).0 == name,
    decreases STATIC_LEN + 1 - from,
{
    if from <= STATIC_LEN && table::static_entry(from as usize).0 != name {
        static_name_found(name, from + 1);
    }
}

proof fn entry_found(entries: Seq<header::Raw>, raw: header::Raw, from: nat)
    ensures
        encoder::entry_at(entries, raw, from) matches Some(i) ==> i < entries.len()
            && entries[i as int] == raw,
    decreases entries.len() - from,
{
    if from < entries.len() && entries[from as int] != raw {
        entry_found(entries, raw, from + 1);
    }
}

proof fn name_found(entries: Seq<header::Raw>, name: Seq<u8>, from: nat)
    ensures
        encoder::name_at(entries, name, from) matches Some(i) ==> i < entries.len()
            && entries[i as int].0 == name,
    decreases entries.len() - from,
{
    if from < entries.len() && entries[from as int].0 != name {
        name_found(entries, name, from + 1);
    }
}

proof fn entries_bound(entries: Seq<header::Raw>)
    ensures
        32 * entries.len() <= table::total(entries),
    decreases entries.len(),
{
    if entries.len() > 0 {
        entries_bound(entries.drop_last());
    }
}

/// The index that is written for a name leads to the name.
proof fn name_index_found(table: TableView, name: Seq<u8>)
    requires
        table.wf(),
        table.max_size <= u32::MAX,
    ensures
        ({
            let i = encoder::name_index(table, name);
            &&& i < primitive::VARINT_LIMIT
            &&& i != 0 ==> table.get(i) is Ok && table.get(i)->Ok_0.0 == name
        }),
{
    static_name_found(name, 1);
    name_found(table.entries, name, 0);
    entries_bound(table.entries);
}

/// A name and a value that were written out read back as themselves.
proof fn literal_round_trip(
    table: TableView,
    mask: u8,
    flags: u8,
    index: nat,
    h: HeaderView<Seq<u8>>,
    rest: Seq<u8>,
)
    requires
        encodable(h),
        index < primitive::VARINT_LIMIT,
        index != 0 ==> table.get(index) is Ok && table.get(index)->Ok_0.0 == h.name(),
        flags + mask <= 255,
        mask > 0,
        flags as int % (mask + 1) == 0,
    ensures
        ({
            let b = primitive::int_bytes(index, mask, flags) + encoder::name_bytes(
                index,
                h.name(),
            ) + primitive::string_bytes(h.value());
            &&& decoder::literal(table, mask, b + rest) == Ok::<(header::Raw, nat), DecoderError>(
                (h.raw(), b.len()),
            )
            &&& b.len() >= 1
            &&& flags <= (b + rest)[0] <= flags + mask
        }),
{
    let b1 = primitive::int_bytes(index, mask, flags);
    let b2 = encoder::name_bytes(index, h.name());
    let b3 = primitive::string_bytes(h.value());
    let all = b1 + b2 + b3 + rest;
    primitive::int_round_trip(index, mask, flags, b2 + b3 + rest);
    assert(all =~= b1 + (b2 + b3 + rest));
    assert(all.skip(b1.len() as int) =~= b2 + b3 + rest);
    assert(all.skip((b1.len() + b2.len()) as int) =~= b3 + rest);
    primitive::string_round_trip(h.value(), rest);
    if index == 0 {
        primitive::string_round_trip(h.name(), b3 + rest);
        assert(b2 + b3 + rest =~= b2 + (b3 + rest));
    } else {
        assert(b2 + b3 + rest =~= b3 + rest);
    }
}

/// One header that was written reads back as itself, and moves the decoder's
/// table as it moved the encoder's.
proof fn step_round_trip(
    table: TableView,
    limit: nat,
    can_resize: bool,
    h: HeaderView<Seq<u8>>,
    rest: Seq<u8>,
)
    requires
        table.wf(),
        table.max_size <= u32::MAX,
        encodable(h),
    ensures
        ({
            let repr = encoder::choice(table, h);
            let b = encoder::repr_bytes(repr, h);
            &&& b.len() >= 1
            &&& decoder::step(table, limit, can_resize, b + rest) == Ok::<Step, DecoderError>(
                Step {
                    table: encoder::repr_table(table, repr, h),
                    header: Some(h.plain()),
                    len: b.len(),
                },
            )
        }),
{
    reveal(decoder::step);
    header::header_inverse(h);
    static_entry_found(h.raw(), 1);
    static_name_found(h.name(), 1);
    entry_found(table.entries, h.raw(), 0);
    entries_bound(table.entries);
    name_index_found(table, h.name());
    let repr = encoder::choice(table, h);
    match repr {
        Repr::Indexed(i) => {
            primitive::int_round_trip(i, 127, 128, rest);
        },
        Repr::Insert(i) => {
            literal_round_trip(table, 63, 64, i, h, rest);
        },
        Repr::Literal(i) => {
            let flags: u8 = if h.sensitive() {
                16
            } else {
                0
            };
            literal_round_trip(table, 15, flags, i, h, rest);
        },
    }
}

/// Inserting keeps a table within its bounds.
proof fn inserted_wf(table: TableView, entry: header::Raw)
    ensures
        table.inserted(entry).wf(),
        table.inserted(entry).max_size == table.max_size,
{
    if header::entry_size(entry) <= table.max_size {
        let room = table.max_size - header::entry_size(entry);
        table::fit_bounds(table.entries, room);
        table::total_cons(entry, table::fit(table.entries, room));
    }
}

/// Headers that were written read back as themselves, but for marks of
/// sensitivity, and what follows them is read with the encoder's table.
pub proof fn headers_round_trip(
    table: TableView,
    limit: nat,
    can_resize: bool,
    headers: Seq<HeaderView<Seq<u8>>>,
)
    requires
        table.wf(),
        table.max_size <= u32::MAX,
        forall|i: int| 0 <= i < headers.len() ==> encodable(#[trigger] headers[i]),
    ensures
        decoder::decode_block(
            table,
            limit,
            can_resize,
            encoder::encode_all(table, headers).1,
        ) == (Outcome {
            table: encoder::encode_all(table, headers).0,
            headers: plain_all(headers),
            error: None,
        }),
    decreases headers.len(),
{
    let all = encoder::encode_all(table, headers).1;
    if headers.len() == 0 {
        assert(plain_all(headers) =~= Seq::empty());
    } else {
        let h = headers[0];
        let repr = encoder::choice(table, h);
        let b = encoder::repr_bytes(repr, h);
        let next = encoder::repr_table(table, repr, h);
        let rest = encoder::encode_all(next, headers.skip(1)).1;
        inserted_wf(table, h.raw());
        step_round_trip(table, limit, can_resize, h, rest);
        headers_round_trip(next, limit, false, headers.skip(1));
        assert(all == b + rest);
        assert(all.skip(b.len() as int) =~= rest);
        assert(plain_all(headers) =~= seq![h.plain()] + plain_all(headers.skip(1)));
    }
}

/// A change of the table size at the head of a block is carried out.
proof fn resize_round_trip(table: TableView, limit: nat, size: nat, rest: Seq<u8>)
    requires
        size <= limit,
        size < primitive::VARINT_LIMIT,
    ensures
        decoder::decode_block(
            table,
            limit,
            true,
            primitive::int_bytes(size, 31, 32) + rest,
        ) == decoder::decode_block(table.resized(size), limit, true, rest),
{
    reveal(decoder::step);
    let b = primitive::int_bytes(size, 31, 32);
    primitive::int_round_trip(size, 31, 32, rest);
    assert((b + rest).skip(b.len() as int) =~= rest);
    let after = decoder::decode_block(table.resized(size), limit, true, rest);
    assert(decoder::header_list(None) + after.headers =~= after.headers);
}

/// A whole block that was written reads back as its headers, but for marks of
/// sensitivity, and leaves the decoder with the encoder's table.
///
/// The table sizes that the encoder announces must be within the decoder's limit.
pub proof fn block_round_trip(
    table: TableView,
    limit: nat,
    update: Option<SizeUpdate>,
    headers: Seq<HeaderView<Seq<u8>>>,
)
    requires
        table.wf(),
        table.max_size <= u32::MAX,
        limit < primitive::VARINT_LIMIT,
        match update {
            None => true,
            Some(SizeUpdate::One(n)) => n <= limit,
            Some(SizeUpdate::Two(min, n)) => min <= limit && n <= limit,
        },
        forall|i: int| 0 <= i < headers.len() ==> encodable(#[trigger] headers[i]),
    ensures
        ({
            let start = encoder::updated_table(table, update);
            let block = encoder::encode_all(start, headers);
            decoder::decode_block(table, limit, true, encoder::update_bytes(update) + block.1) == (
            Outcome { table: block.0, headers: plain_all(headers), error: None })
        }),
{
    let start = encoder::updated_table(table, update);
    let block = encoder::encode_all(start, headers);
    match update {
        None => {
            assert(encoder::update_bytes(update) + block.1 =~= block.1);
        },
        Some(SizeUpdate::One(n)) => {
            resize_round_trip(table, limit, n as nat, block.1);
            table::fit_bounds(table.entries, n as int);
        },
        Some(SizeUpdate::Two(min, n)) => {
            let b1 = primitive::int_bytes(min as nat, 31, 32);
            let b2 = primitive::int_bytes(n as nat, 31, 32);
            resize_round_trip(table, limit, min as nat, b2 + block.1);
            resize_round_trip(table.resized(min as nat), limit, n as nat, block.1);
            table::fit_bounds(table.entries, min as int);
            table::fit_bounds(table.resized(min as nat).entries, n as int);
            assert(b1 + b2 + block.1 =~= b1 + (b2 + block.1));
        },
    }
    headers_round_trip(start, limit, true, headers);
}

} // verus!
