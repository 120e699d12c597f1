use vstd::prelude::*;

use crate::hpack::decoder;
use crate::hpack::header::{self, same_bytes, Header, HeaderView};
use crate::hpack::primitive;
use crate::hpack::table::{self, Table, TableView, DYN_OFFSET, STATIC_LEN};

verus! {

/// The table size that both sides start with.
pub const DEFAULT_TABLE_SIZE: usize = 4096;

/// Compresses the header blocks of one connection.
#[derive(Debug, Clone)]
pub struct Encoder {
    pub size_update: Option<SizeUpdate>,
    pub table: Table,
}

/// Changes of the table size that the next block starts with.
#[derive(Debug, Copy, Clone, PartialEq, Eq, Structural)]
pub enum SizeUpdate {
    One(usize),
    /// The smallest size in between, and the last one.
    Two(usize, usize),
}

/// How a header is written.
pub enum Repr {
    /// As an entry of the table.
    Indexed(nat),
    /// In full, and becomes an entry. The name is an entry too, or written out if
    /// the index is zero.
    Insert(nat),
    /// In full, and becomes no entry.
    Literal(nat),
}

// ===== What is in the table =====

/// The first static entry from `from` on that is `raw`.
pub open spec fn static_entry_at(raw: header::Raw, from: nat) -> Option<nat>
    decreases STATIC_LEN + 1 - from,
{
    if from > STATIC_LEN {
        None
    } else if table::static_entry(from as usize) == raw {
        Some(from)
    } else {
        static_entry_at(raw, from + 1)
    }
}

/// The first static entry from `from` on that has a name.
pub open spec fn static_name_at(name: Seq<u8>, from: nat) -> Option<nat>
    decreases STATIC_LEN + 1 - from,
{
    if from > STATIC_LEN {
        None
    } else if table::static_entry(from as usize).0 == name {
        Some(from)
    } else {
        static_name_at(name, from + 1)
    }
}

/// The newest dynamic entry from `from` on that is `raw`.
pub open spec fn entry_at(entries: Seq<header::Raw>, raw: header::Raw, from: nat) -> Option<nat>
    decreases entries.len() - from,
{
    if from >= entries.len() {
        None
    } else if entries[from as int] == raw {
        Some(from)
    } else {
        entry_at(entries, raw, from + 1)
    }
}

/// The newest dynamic entry from `from` on that has a name.
pub open spec fn name_at(entries: Seq<header::Raw>, name: Seq<u8>, from: nat) -> Option<nat>
    decreases entries.len() - from,
{
    if from >= entries.len() {
        None
    } else if entries[from as int].0 == name {
        Some(from)
    } else {
        name_at(entries, name, from + 1)
    }
}

/// The index of a name, static ones first, or zero.
pub open spec fn name_index(table: TableView, name: Seq<u8>) -> nat {
    match static_name_at(name, 1) {
        Some(i) => i,
        None => match name_at(table.entries, name, 0) {
            Some(i) => DYN_OFFSET as nat + i,
            None => 0,
        },
    }
}

/// How a header is written.
///
/// What is in the table is an index. What changes too often, or takes more than
/// three quarters of the table, stays out of it, and so does what is sensitive;
/// everything else is added.
pub open spec fn choice(table: TableView, h: HeaderView<Seq<u8>>) -> Repr {
    let size = header::entry_size(h.raw());
    match static_entry_at(h.raw(), 1) {
        Some(i) => Repr::Indexed(i),
        None => if h.skips_index() || 4 * size > 3 * table.max_size {
            Repr::Literal(
                match static_name_at(h.name(), 1) {
                    Some(i) => i,
                    None => 0,
                },
            )
        } else {
            match entry_at(table.entries, h.raw(), 0) {
                Some(i) => Repr::Indexed(DYN_OFFSET as nat + i),
                None => if h.sensitive() {
                    Repr::Literal(name_index(table, h.name()))
                } else {
                    Repr::Insert(name_index(table, h.name()))
                },
            }
        },
    }
}

/// A name behind its index: nothing, unless the index is zero.
pub open spec fn name_bytes(index: nat, name: Seq<u8>) -> Seq<u8> {
    if index == 0 {
        primitive::string_bytes(name)
    } else {
        Seq::empty()
    }
}

/// A header on the wire.
pub open spec fn repr_bytes(repr: Repr, h: HeaderView<Seq<u8>>) -> Seq<u8> {
    match repr {
        Repr::Indexed(i) => primitive::int_bytes(i, 127, 128),
        Repr::Insert(i) => primitive::int_bytes(i, 63, 64) + name_bytes(i, h.name())
            + primitive::string_bytes(h.value()),
        Repr::Literal(i) => primitive::int_bytes(
            i,
            15,
            if h.sensitive() {
                16
            } else {
                0
            },
        ) + name_bytes(i, h.name()) + primitive::string_bytes(h.value()),
    }
}

/// The table behind a header.
pub open spec fn repr_table(table: TableView, repr: Repr, h: HeaderView<Seq<u8>>) -> TableView {
    match repr {
        Repr::Insert(_) => table.inserted(h.raw()),
        _ => table,
    }
}

/// Some headers on the wire, and the table behind them.
pub open spec fn encode_all(table: TableView, headers: Seq<HeaderView<Seq<u8>>>) -> (
    TableView,
    Seq<u8>,
)
    decreases headers.len(),
{
    if headers.len() == 0 {
        (table, Seq::empty())
    } else {
        let repr = choice(table, headers[0]);
        let rest = encode_all(repr_table(table, repr, headers[0]), headers.skip(1));
        (rest.0, repr_bytes(repr, headers[0]) + rest.1)
    }
}

/// The table after the pending changes of its size.
pub open spec fn updated_table(table: TableView, update: Option<SizeUpdate>) -> TableView {
    match update {
        None => table,
        Some(SizeUpdate::One(n)) => table.resized(n as nat),
        Some(SizeUpdate::Two(min, n)) => table.resized(min as nat).resized(n as nat),
    }
}

/// The pending changes of the table size on the wire.
pub open spec fn update_bytes(update: Option<SizeUpdate>) -> Seq<u8> {
    match update {
        None => Seq::empty(),
        Some(SizeUpdate::One(n)) => primitive::int_bytes(n as nat, 31, 32),
        Some(SizeUpdate::Two(min, n)) => primitive::int_bytes(min as nat, 31, 32)
            + primitive::int_bytes(n as nat, 31, 32),
    }
}

/// The changes that are pending after one more: all that the peer has to learn
/// are the smallest size and the last one.
pub open spec fn merged(update: Option<SizeUpdate>, max_size: nat, val: usize) -> Option<
    SizeUpdate,
> {
    match update {
        Some(SizeUpdate::One(old)) => if val > old && old <= max_size {
            Some(SizeUpdate::Two(old, val))
        } else {
            Some(SizeUpdate::One(val))
        },
        Some(SizeUpdate::Two(min, _)) => if val < min {
            Some(SizeUpdate::One(val))
        } else {
            Some(SizeUpdate::Two(min, val))
        },
        None => if val != max_size {
            Some(SizeUpdate::One(val))
        } else {
            None
        },
    }
}

/// A status has three digits.
pub open spec fn status_ok(h: HeaderView<Seq<u8>>) -> bool {
    h matches HeaderView::Status(v) ==> 100 <= v <= 999
}

impl Encoder {
    pub open spec fn wf(self) -> bool {
        self.table.wf()
    }

    /// Queues a max size update.
    ///
    /// The next call to `encode` will include a dynamic size update frame.
    pub fn update_max_size(&mut self, val: usize)
        ensures
            final(self).table == old(self).table,
            final(self).size_update == merged(
                old(self).size_update,
                old(self).table@.max_size,
                val,
            ),
    {
        match self.size_update {
            Some(SizeUpdate::One(old_val)) => {
                if val > old_val && old_val <= self.table.max_size() {
                    self.size_update = Some(SizeUpdate::Two(old_val, val));
                } else {
                    self.size_update = Some(SizeUpdate::One(val));
                }
            },
            Some(SizeUpdate::Two(min, _)) => {
                if val < min {
                    self.size_update = Some(SizeUpdate::One(val));
                } else {
                    self.size_update = Some(SizeUpdate::Two(min, val));
                }
            },
            None => {
                // Don't bother writing an update if the value already matches the
                // table's max size.
                if val != self.table.max_size() {
                    self.size_update = Some(SizeUpdate::One(val));
                }
            },
        }
    }

    /// Encode a set of headers into the provide buffer
    pub fn encode(&mut self, headers: &[Header], dst: &mut Vec<u8>)
        requires
            old(self).wf(),
            forall|i: int| 0 <= i < headers@.len() ==> status_ok((#[trigger] headers@[i])@),
        ensures
            final(self).wf(),
            final(self).size_update is None,
            ({
                let start = updated_table(old(self).table@, old(self).size_update);
                let block = encode_all(start, decoder::headers_view(headers@));
                &&& final(self).table@ == block.0
                &&& final(dst)@ == old(dst)@ + update_bytes(old(self).size_update) + block.1
            }),
    {
        self.encode_size_updates(dst);
        let ghost start = self.table@;
        let ghost head = dst@;
        let ghost views = decoder::headers_view(headers@);
        let ghost block = encode_all(start, views);
        let mut i: usize = 0;
        assert(views.skip(0) =~= views);
        assert(head + block.1 =~= dst@ + block.1);
        while i < headers.len()
            invariant
                i <= headers@.len(),
                self.wf(),
                self.size_update is None,
                views == decoder::headers_view(headers@),
                block == encode_all(start, views),
                forall|i: int| 0 <= i < headers@.len() ==> status_ok((#[trigger] headers@[i])@),
                ({
                    let rest = encode_all(self.table@, views.skip(i as int));
                    &&& rest.0 == block.0
                    &&& dst@ + rest.1 =~= head + block.1
                }),
            decreases headers@.len() - i,
        {
            let ghost rest = views.skip(i as int);
            let ghost before = dst@;
            assert(rest[0] == headers@[i as int]@);
            assert(rest.skip(1) =~= views.skip(i + 1));
            self.encode_header(&headers[i], dst);
            i += 1;
        }
        assert(views.skip(i as int) =~= Seq::empty());
        assert(dst@ + Seq::<u8>::empty() =~= dst@);
    }

    fn encode_size_updates(&mut self, dst: &mut Vec<u8>)
        requires
            old(self).wf(),
        ensures
            final(self).wf(),
            final(self).size_update is None,
            final(self).table@ == updated_table(old(self).table@, old(self).size_update),
            final(dst)@ == old(dst)@ + update_bytes(old(self).size_update),
    {
        match self.size_update {
            Some(SizeUpdate::One(val)) => {
                self.table.set_max_size(val);
                primitive::encode_int(val, 31, 32, dst);
            },
            Some(SizeUpdate::Two(min, max)) => {
                self.table.set_max_size(min);
                self.table.set_max_size(max);
                primitive::encode_int(min, 31, 32, dst);
                primitive::encode_int(max, 31, 32, dst);
            },
            None => {},
        }
        assert(dst@ =~= old(dst)@ + update_bytes(old(self).size_update));
        self.size_update = None;
    }

    fn encode_header(&mut self, h: &Header, dst: &mut Vec<u8>)
        requires
            old(self).wf(),
            status_ok(h@),
        ensures
            final(self).wf(),
            final(self).size_update == old(self).size_update,
            final(self).table@ == repr_table(
                old(self).table@,
                choice(old(self).table@, h@),
                h@,
            ),
            final(dst)@ == old(dst)@ + repr_bytes(choice(old(self).table@, h@), h@),
    {
        let name: Vec<u8> = crate::frame::util::copy(h.name().as_slice());
        let value: Vec<u8> = h.value_slice();

        // If the header is already indexed by the static table, use that
        if let Some(index) = find_static(name.as_slice(), value.as_slice()) {
            primitive::encode_int(index, 127, 128, dst);
            return;
        }
        let size: u128 = 32 + name.len() as u128 + value.len() as u128;
        let flags: u8 = if h.is_sensitive() {
            16
        } else {
            0
        };
        // Don't index certain headers, nor large ones
        if h.skip_value_index() || 4 * size > 3 * (self.table.max_size() as u128) {
            let index: usize = match find_static_name(name.as_slice()) {
                Some(index) => index,
                None => 0,
            };
            put_literal(index, 15, flags, &name, &value, dst);
            return;
        }
        if let Some(index) = find_entry(&self.table, name.as_slice(), value.as_slice()) {
            primitive::encode_int(DYN_OFFSET + index, 127, 128, dst);
            return;
        }
        let index: usize = match find_static_name(name.as_slice()) {
            Some(index) => index,
            None => match find_name(&self.table, name.as_slice()) {
                Some(index) => DYN_OFFSET + index,
                None => 0,
            },
        };
        if h.is_sensitive() {
            put_literal(index, 15, flags, &name, &value, dst);
        } else {
            put_literal(index, 63, 64, &name, &value, dst);
            self.table.insert(name, value);
        }
    }
}

impl Default for Encoder {
    fn default() -> (r: Encoder)
        ensures
            r.wf(),
            r.size_update is None,
            r.table@ == (TableView { entries: Seq::empty(), max_size: DEFAULT_TABLE_SIZE as nat }),
    {
        Encoder { size_update: None, table: Table::new(DEFAULT_TABLE_SIZE) }
    }
}

/// Writes a name, unless it is an index, and a value.
fn put_literal(
    index: usize,
    mask: u8,
    flags: u8,
    name: &Vec<u8>,
    value: &Vec<u8>,
    dst: &mut Vec<u8>,
)
    requires
        flags + mask <= 255,
    ensures
        final(dst)@ == old(dst)@ + (primitive::int_bytes(index as nat, mask, flags) + name_bytes(
            index as nat,
            name@,
        ) + primitive::string_bytes(value@)),
{
    primitive::encode_int(index, mask, flags, dst);
    if index == 0 {
        primitive::encode_string(name.as_slice(), dst);
    }
    primitive::encode_string(value.as_slice(), dst);
    assert(dst@ =~= old(dst)@ + (primitive::int_bytes(index as nat, mask, flags) + name_bytes(
        index as nat,
        name@,
    ) + primitive::string_bytes(value@)));
}

fn find_static(name: &[u8], value: &[u8]) -> (r: Option<usize>)
    ensures
        match static_entry_at((name@, value@), 1) {
            Some(i) => r is Some && r->0 == i,
            None => r is None,
        },
{
    let mut i: usize = 1;
    while i <= STATIC_LEN
        invariant
            1 <= i <= STATIC_LEN + 1,
            static_entry_at((name@, value@), 1) == static_entry_at((name@, value@), i as nat),
        decreases STATIC_LEN + 1 - i,
    {
        let (n, v) = table::static_strs(i);
        if same_bytes(n.as_bytes(), name) && same_bytes(v.as_bytes(), value) {
            return Some(i);
        }
        i += 1;
    }
    None
}

fn find_static_name(name: &[u8]) -> (r: Option<usize>)
    ensures
        match static_name_at(name@, 1) {
            Some(i) => r is Some && r->0 == i,
            None => r is None,
        },
{
    let mut i: usize = 1;
    while i <= STATIC_LEN
        invariant
            1 <= i <= STATIC_LEN + 1,
            static_name_at(name@, 1) == static_name_at(name@, i as nat),
        decreases STATIC_LEN + 1 - i,
    {
        let (n, _) = table::static_strs(i);
        if same_bytes(n.as_bytes(), name) {
            return Some(i);
        }
        i += 1;
    }
    None
}

fn find_entry(table: &Table, name: &[u8], value: &[u8]) -> (r: Option<usize>)
    requires
        table.wf(),
    ensures
        match entry_at(table@.entries, (name@, value@), 0) {
            Some(i) => r is Some && r->0 == i,
            None => r is None,
        },
        r matches Some(i) ==> i < table@.entries.len() && i < usize::MAX / 32,
{
    let len: usize = table.entries.len();
    let mut i: usize = 0;
    proof {
        entries_bound(table@.entries);
    }
    while i < len
        invariant
            i <= len == table.entries@.len(),
            32 * len <= usize::MAX,
            entry_at(table@.entries, (name@, value@), 0) == entry_at(
                table@.entries,
                (name@, value@),
                i as nat,
            ),
        decreases len - i,
    {
        let entry = &table.entries[len - 1 - i];
        if same_bytes(entry.0.as_slice(), name) && same_bytes(entry.1.as_slice(), value) {
            return Some(i);
        }
        i += 1;
    }
    None
}

fn find_name(table: &Table, name: &[u8]) -> (r: Option<usize>)
    requires
        table.wf(),
    ensures
        match name_at(table@.entries, name@, 0) {
            Some(i) => r is Some && r->0 == i,
            None => r is None,
        },
        r matches Some(i) ==> i < table@.entries.len() && i < usize::MAX / 32,
{
    let len: usize = table.entries.len();
    let mut i: usize = 0;
    proof {
        entries_bound(table@.entries);
    }
    while i < len
        invariant
            i <= len == table.entries@.len(),
            32 * len <= usize::MAX,
            name_at(table@.entries, name@, 0) == name_at(table@.entries, name@, i as nat),
        decreases len - i,
    {
        let entry = &table.entries[len - 1 - i];
        if same_bytes(entry.0.as_slice(), name) {
            return Some(i);
        }
        i += 1;
    }
    None
}

/// Entries take at least 32 bytes each.
proof fn entries_bound(entries: Seq<header::Raw>)
    ensures
        32 * entries.len() <= table::total(entries),
    decreases entries.len(),
{
    if entries.len() > 0 {
        entries_bound(entries.drop_last());
    }
}

} // verus!
