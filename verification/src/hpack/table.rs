use vstd::prelude::*;

use crate::hpack::header;
use crate::hpack::DecoderError;
use crate::http;

verus! {

/// The number of entries in the static table.
pub const STATIC_LEN: usize = 61;

/// The first index of the dynamic table.
pub const DYN_OFFSET: usize = 62;

/// The texts of an entry of the static table.
pub open spec fn static_texts(index: usize) -> (Seq<char>, Seq<char>) {
    match index {
        1 => (":authority"@, ""@),
        2 => (":method"@, "GET"@),
        3 => (":method"@, "POST"@),
        4 => (":path"@, "/"@),
        5 => (":path"@, "/index.html"@),
        6 => (":scheme"@, "http"@),
        7 => (":scheme"@, "https"@),
        8 => (":status"@, "200"@),
        9 => (":status"@, "204"@),
        10 => (":status"@, "206"@),
        11 => (":status"@, "304"@),
        12 => (":status"@, "400"@),
        13 => (":status"@, "404"@),
        14 => (":status"@, "500"@),
        15 => ("accept-charset"@, ""@),
        16 => ("accept-encoding"@, "gzip, deflate"@),
        17 => ("accept-language"@, ""@),
        18 => ("accept-ranges"@, ""@),
        19 => ("accept"@, ""@),
        20 => ("access-control-allow-origin"@, ""@),
        21 => ("age"@, ""@),
        22 => ("allow"@, ""@),
        23 => ("authorization"@, ""@),
        24 => ("cache-control"@, ""@),
        25 => ("content-disposition"@, ""@),
        26 => ("content-encoding"@, ""@),
        27 => ("content-language"@, ""@),
        28 => ("content-length"@, ""@),
        29 => ("content-location"@, ""@),
        30 => ("content-range"@, ""@),
        31 => ("content-type"@, ""@),
        32 => ("cookie"@, ""@),
        33 => ("date"@, ""@),
        34 => ("etag"@, ""@),
        35 => ("expect"@, ""@),
        36 => ("expires"@, ""@),
        37 => ("from"@, ""@),
        38 => ("host"@, ""@),
        39 => ("if-match"@, ""@),
        40 => ("if-modified-since"@, ""@),
        41 => ("if-none-match"@, ""@),
        42 => ("if-range"@, ""@),
        43 => ("if-unmodified-since"@, ""@),
        44 => ("last-modified"@, ""@),
        45 => ("link"@, ""@),
        46 => ("location"@, ""@),
        47 => ("max-forwards"@, ""@),
        48 => ("proxy-authenticate"@, ""@),
        49 => ("proxy-authorization"@, ""@),
        50 => ("range"@, ""@),
        51 => ("referer"@, ""@),
        52 => ("refresh"@, ""@),
        53 => ("retry-after"@, ""@),
        54 => ("server"@, ""@),
        55 => ("set-cookie"@, ""@),
        56 => ("strict-transport-security"@, ""@),
        57 => ("transfer-encoding"@, ""@),
        58 => ("user-agent"@, ""@),
        59 => ("vary"@, ""@),
        60 => ("via"@, ""@),
        61 => ("www-authenticate"@, ""@),
        _ => (""@, ""@),
    }
}

/// An entry of the static table.
pub open spec fn static_entry(index: usize) -> header::Raw {
    (http::text_bytes(static_texts(index).0), http::text_bytes(static_texts(index).1))
}

pub fn static_strs(index: usize) -> (r: (&'static str, &'static str))
    ensures
        r.0@ == static_texts(index).0,
        r.1@ == static_texts(index).1,
{
    match index {
        1 => (":authority", ""),
        2 => (":method", "GET"),
        3 => (":method", "POST"),
        4 => (":path", "/"),
        5 => (":path", "/index.html"),
        6 => (":scheme", "http"),
        7 => (":scheme", "https"),
        8 => (":status", "200"),
        9 => (":status", "204"),
        10 => (":status", "206"),
        11 => (":status", "304"),
        12 => (":status", "400"),
        13 => (":status", "404"),
        14 => (":status", "500"),
        15 => ("accept-charset", ""),
        16 => ("accept-encoding", "gzip, deflate"),
        17 => ("accept-language", ""),
        18 => ("accept-ranges", ""),
        19 => ("accept", ""),
        20 => ("access-control-allow-origin", ""),
        21 => ("age", ""),
        22 => ("allow", ""),
        23 => ("authorization", ""),
        24 => ("cache-control", ""),
        25 => ("content-disposition", ""),
        26 => ("content-encoding", ""),
        27 => ("content-language", ""),
        28 => ("content-length", ""),
        29 => ("content-location", ""),
        30 => ("content-range", ""),
        31 => ("content-type", ""),
        32 => ("cookie", ""),
        33 => ("date", ""),
        34 => ("etag", ""),
        35 => ("expect", ""),
        36 => ("expires", ""),
        37 => ("from", ""),
        38 => ("host", ""),
        39 => ("if-match", ""),
        40 => ("if-modified-since", ""),
        41 => ("if-none-match", ""),
        42 => ("if-range", ""),
        43 => ("if-unmodified-since", ""),
        44 => ("last-modified", ""),
        45 => ("link", ""),
        46 => ("location", ""),
        47 => ("max-forwards", ""),
        48 => ("proxy-authenticate", ""),
        49 => ("proxy-authorization", ""),
        50 => ("range", ""),
        51 => ("referer", ""),
        52 => ("refresh", ""),
        53 => ("retry-after", ""),
        54 => ("server", ""),
        55 => ("set-cookie", ""),
        56 => ("strict-transport-security", ""),
        57 => ("transfer-encoding", ""),
        58 => ("user-agent", ""),
        59 => ("vary", ""),
        60 => ("via", ""),
        61 => ("www-authenticate", ""),
        _ => ("", ""),
    }
}

// ===== The dynamic table =====

/// The entries of both tables that a connection shares with its peer.
#[verifier::ext_equal]
pub struct TableView {
    /// The dynamic entries, newest first.
    pub entries: Seq<header::Raw>,
    /// What the entries may add up to.
    pub max_size: nat,
}

/// The sizes of some entries, added up.
pub open spec fn total(entries: Seq<header::Raw>) -> nat
    decreases entries.len(),
{
    if entries.len() == 0 {
        0
    } else {
        total(entries.drop_last()) + header::entry_size(entries.last())
    }
}

/// What is left of some entries when the oldest ones are dropped until the rest
/// takes no more than `room`.
pub open spec fn fit(entries: Seq<header::Raw>, room: int) -> Seq<header::Raw>
    decreases entries.len(),
{
    if entries.len() == 0 || total(entries) <= room {
        entries
    } else {
        fit(entries.drop_last(), room)
    }
}

impl TableView {
    pub open spec fn wf(self) -> bool {
        total(self.entries) <= self.max_size
    }

    /// The table with one more entry. One that takes more than the whole table
    /// leaves it empty.
    pub open spec fn inserted(self, entry: header::Raw) -> TableView {
        if header::entry_size(entry) > self.max_size {
            TableView { entries: Seq::empty(), ..self }
        } else {
            TableView {
                entries: seq![entry] + fit(
                    self.entries,
                    self.max_size - header::entry_size(entry),
                ),
                ..self
            }
        }
    }

    pub open spec fn resized(self, max_size: nat) -> TableView {
        TableView { entries: fit(self.entries, max_size as int), max_size }
    }

    /// The entry behind an index, static ones first.
    pub open spec fn get(self, index: nat) -> Result<header::Raw, DecoderError> {
        if 1 <= index <= STATIC_LEN {
            Ok(static_entry(index as usize))
        } else if DYN_OFFSET <= index && index - DYN_OFFSET < self.entries.len() {
            Ok(self.entries[index - DYN_OFFSET])
        } else {
            Err(DecoderError::InvalidTableIndex)
        }
    }
}

/// The dynamic table. The oldest entry comes first.
#[derive(Debug, Clone)]
pub struct Table {
    pub entries: Vec<(Vec<u8>, Vec<u8>)>,
    pub size: usize,
    pub max_size: usize,
}

impl View for Table {
    type V = TableView;

    open spec fn view(&self) -> TableView {
        TableView { entries: newest_first(self.entries@), max_size: self.max_size as nat }
    }
}

/// The entries by what they hold, newest first.
pub open spec fn newest_first(entries: Seq<(Vec<u8>, Vec<u8>)>) -> Seq<header::Raw> {
    Seq::new(
        entries.len(),
        |i: int| (entries[entries.len() - 1 - i].0@, entries[entries.len() - 1 - i].1@),
    )
}

impl Table {
    pub open spec fn wf(self) -> bool {
        self.size == total(self@.entries) && self.size <= self.max_size
    }

    pub fn new(max_size: usize) -> (r: Table)
        ensures
            r.wf(),
            r@ == (TableView { entries: Seq::empty(), max_size: max_size as nat }),
    {
        let r = Table { entries: Vec::new(), size: 0, max_size };
        assert(r@.entries =~= Seq::empty());
        r
    }

    pub fn max_size(&self) -> (r: usize)
        ensures
            r == self@.max_size,
    {
        self.max_size
    }

    /// Drops the oldest entries until no more than `room` bytes are in use.
    fn evict(&mut self, room: usize)
        requires
            old(self).size == total(old(self)@.entries),
        ensures
            final(self)@.entries == fit(old(self)@.entries, room as int),
            final(self).max_size == old(self).max_size,
            final(self).size == total(final(self)@.entries),
            final(self).size <= room,
    {
        while self.size > room
            invariant
                self.size == total(self@.entries),
                self.max_size == old(self).max_size,
                fit(self@.entries, room as int) == fit(old(self)@.entries, room as int),
            decreases self.entries@.len(),
        {
            assert(self.entries@.len() > 0);
            let ghost before = self@.entries;
            let oldest = self.entries.remove(0);
            proof {
                assert(self@.entries =~= before.drop_last());
                assert(before.last() == (oldest.0@, oldest.1@));
            }
            self.size = self.size - (32 + oldest.0.len() + oldest.1.len());
        }
    }

    /// Adds an entry, and drops as many of the oldest ones as it takes.
    pub fn insert(&mut self, name: Vec<u8>, value: Vec<u8>)
        requires
            old(self).wf(),
        ensures
            final(self).wf(),
            final(self)@ == old(self)@.inserted((name@, value@)),
    {
        let len: u128 = 32 + name.len() as u128 + value.len() as u128;
        if len > self.max_size as u128 {
            self.entries.clear();
            self.size = 0;
            assert(self@.entries =~= Seq::empty());
            return;
        }
        let len: usize = len as usize;
        self.evict(self.max_size - len);
        let ghost kept = self@.entries;
        let ghost entry = (name@, value@);
        self.entries.push((name, value));
        self.size = self.size + len;
        proof {
            assert(self@.entries =~= seq![entry] + kept);
            total_cons(entry, kept);
        }
    }

    /// Sets what the entries may add up to, and drops the oldest ones that are
    /// over it.
    pub fn set_max_size(&mut self, max_size: usize)
        requires
            old(self).wf(),
        ensures
            final(self).wf(),
            final(self)@ == old(self)@.resized(max_size as nat),
    {
        self.evict(max_size);
        self.max_size = max_size;
    }

    /// The name and the value behind an index.
    pub fn get(&self, index: usize) -> (r: Result<(Vec<u8>, Vec<u8>), DecoderError>)
        ensures
            match self@.get(index as nat) {
                Ok(raw) => r is Ok && r->Ok_0.0@ == raw.0 && r->Ok_0.1@ == raw.1,
                Err(e) => r == Err::<(Vec<u8>, Vec<u8>), DecoderError>(e),
            },
    {
        if 1 <= index && index <= STATIC_LEN {
            let (name, value) = static_strs(index);
            return Ok((header::bytes_of(name), header::bytes_of(value)));
        }
        if DYN_OFFSET <= index && index - DYN_OFFSET < self.entries.len() {
            let at: usize = self.entries.len() - 1 - (index - DYN_OFFSET);
            let entry = &self.entries[at];
            return Ok(
                (
                    crate::frame::util::copy(entry.0.as_slice()),
                    crate::frame::util::copy(entry.1.as_slice()),
                ),
            );
        }
        Err(DecoderError::InvalidTableIndex)
    }
}

/// The total of one more entry at the front.
pub proof fn total_cons(entry: header::Raw, entries: Seq<header::Raw>)
    ensures
        total(seq![entry] + entries) == header::entry_size(entry) + total(entries),
    decreases entries.len(),
{
    let all = seq![entry] + entries;
    if entries.len() == 0 {
        assert(all.drop_last() =~= Seq::empty());
        assert(total(all.drop_last()) == 0);
    } else {
        total_cons(entry, entries.drop_last());
        assert(all.drop_last() =~= seq![entry] + entries.drop_last());
    }
}

/// Fitting keeps the newest entries, and what it keeps fits.
pub proof fn fit_bounds(entries: Seq<header::Raw>, room: int)
    ensures
        fit(entries, room).len() <= entries.len(),
        fit(entries, room) == entries.take(fit(entries, room).len() as int),
        room >= 0 ==> total(fit(entries, room)) <= room,
    decreases entries.len(),
{
    if entries.len() == 0 || total(entries) <= room {
        assert(entries.take(entries.len() as int) =~= entries);
    } else {
        fit_bounds(entries.drop_last(), room);
        let n = fit(entries, room).len() as int;
        assert(entries.drop_last().take(n) =~= entries.take(n));
    }
}

} // verus!
