use vstd::prelude::*;

use crate::hpack::header::{self, Header, HeaderView};
use crate::hpack::primitive;
use crate::hpack::table::{Table, TableView};
use crate::hpack::DecoderError;

verus! {

/// Decompresses the header blocks of one connection.
#[derive(Debug, Clone)]
pub struct Decoder {
    /// The largest table size that the peer may choose.
    pub max_size_limit: usize,
    pub table: Table,
}

/// What one representation at the front of a block does.
pub struct Step {
    /// The table behind it.
    pub table: TableView,
    /// The header that it stands for; a change of the table size stands for none.
    pub header: Option<HeaderView<Seq<u8>>>,
    /// How many bytes it takes.
    pub len: nat,
}

/// The outcome of a block: the table behind it, the headers in it, and what is
/// wrong with it.
#[verifier::ext_equal]
pub struct Outcome {
    pub table: TableView,
    pub headers: Seq<HeaderView<Seq<u8>>>,
    pub error: Option<DecoderError>,
}

/// A name and a value that are written out: the name may be an index, and the
/// value is a string. The second part of the result is the length of both.
pub open spec fn literal(table: TableView, mask: u8, src: Seq<u8>) -> Result<
    (header::Raw, nat),
    DecoderError,
> {
    match primitive::int_at(src, mask) {
        Err(e) => Err(e),
        Ok((index, n)) => if index == 0 {
            match primitive::string_at(src.skip(n as int)) {
                Err(e) => Err(e),
                Ok((name, k)) => match primitive::string_at(src.skip((n + k) as int)) {
                    Err(e) => Err(e),
                    Ok((value, m)) => Ok(((name, value), n + k + m)),
                },
            }
        } else {
            match table.get(index) {
                Err(e) => Err(e),
                Ok(raw) => match primitive::string_at(src.skip(n as int)) {
                    Err(e) => Err(e),
                    Ok((value, m)) => Ok(((raw.0, value), n + m)),
                },
            }
        },
    }
}

/// What the first representation of a block does, told by its first bits:
/// `1` an entry of the table, `01` a header that becomes an entry, `001` a new
/// table size, `000` a header that becomes none.
#[verifier::opaque]
pub open spec fn step(table: TableView, limit: nat, can_resize: bool, src: Seq<u8>) -> Result<
    Step,
    DecoderError,
> {
    if src[0] >= 128 {
        match primitive::int_at(src, 127) {
            Err(e) => Err(e),
            Ok((index, len)) => match table.get(index) {
                Err(e) => Err(e),
                Ok(raw) => match HeaderView::parsed(raw.0, raw.1) {
                    Err(e) => Err(e),
                    Ok(h) => Ok(Step { table, header: Some(h), len }),
                },
            },
        }
    } else if src[0] >= 64 {
        match literal(table, 63, src) {
            Err(e) => Err(e),
            Ok((raw, len)) => match HeaderView::parsed(raw.0, raw.1) {
                Err(e) => Err(e),
                Ok(h) => Ok(Step { table: table.inserted(raw), header: Some(h), len }),
            },
        }
    } else if src[0] >= 32 {
        if !can_resize {
            Err(DecoderError::InvalidMaxDynamicSize)
        } else {
            match primitive::int_at(src, 31) {
                Err(e) => Err(e),
                Ok((size, len)) => if size > limit {
                    Err(DecoderError::InvalidMaxDynamicSize)
                } else {
                    Ok(Step { table: table.resized(size), header: None, len })
                },
            }
        }
    } else {
        match literal(table, 15, src) {
            Err(e) => Err(e),
            Ok((raw, len)) => match HeaderView::parsed(raw.0, raw.1) {
                Err(e) => Err(e),
                Ok(h) => Ok(Step { table, header: Some(h), len }),
            },
        }
    }
}

/// The header of a step, if any, as a list.
pub open spec fn header_list(header: Option<HeaderView<Seq<u8>>>) -> Seq<HeaderView<Seq<u8>>> {
    match header {
        Some(h) => seq![h],
        None => Seq::empty(),
    }
}

/// What a whole block does. The table size may change at its head only.
pub open spec fn decode_block(
    table: TableView,
    limit: nat,
    can_resize: bool,
    src: Seq<u8>,
) -> Outcome
    decreases src.len(),
{
    if src.len() == 0 {
        Outcome { table, headers: Seq::empty(), error: None }
    } else {
        match step(table, limit, can_resize, src) {
            Err(e) => Outcome { table, headers: Seq::empty(), error: Some(e) },
            Ok(s) => if 1 <= s.len <= src.len() {
                let rest = decode_block(
                    s.table,
                    limit,
                    can_resize && s.header is None,
                    src.skip(s.len as int),
                );
                Outcome { headers: header_list(s.header) + rest.headers, ..rest }
            } else {
                // No representation is empty or longer than the block.
                Outcome { table, headers: Seq::empty(), error: None }
            },
        }
    }
}

/// A list of headers by what they say.
pub open spec fn headers_view(headers: Seq<Header>) -> Seq<HeaderView<Seq<u8>>> {
    headers.map_values(|h: Header| h@)
}

impl Decoder {
    pub open spec fn wf(self) -> bool {
        self.table.wf()
    }

    /// Creates a new `Decoder` with all settings set to default values.
    pub fn new(size: usize) -> (r: Decoder)
        ensures
            r.wf(),
            r.max_size_limit == size,
            r.table@ == (TableView { entries: Seq::empty(), max_size: size as nat }),
    {
        Decoder { max_size_limit: size, table: Table::new(size) }
    }

    /// Decodes the headers of a block, and keeps the table in step with the peer's.
    ///
    /// The headers in front of an error are handed out too.
    pub fn decode(&mut self, src: &[u8]) -> (r: (Vec<Header>, Result<(), DecoderError>))
        requires
            old(self).wf(),
        ensures
            final(self).wf(),
            final(self).max_size_limit == old(self).max_size_limit,
            forall|i: int| 0 <= i < r.0@.len() ==> (#[trigger] r.0@[i])@.wf(),
            ({
                let outcome = decode_block(
                    old(self).table@,
                    old(self).max_size_limit as nat,
                    true,
                    src@,
                );
                &&& final(self).table@ == outcome.table
                &&& headers_view(r.0@) == outcome.headers
                &&& r.1 == match outcome.error {
                    None => Ok::<(), DecoderError>(()),
                    Some(e) => Err(e),
                }
            }),
    {
        let mut headers: Vec<Header> = Vec::new();
        let mut can_resize = true;
        let mut at: usize = 0;
        let ghost all = decode_block(self.table@, self.max_size_limit as nat, true, src@);
        assert(src@.skip(0) =~= src@);
        assert(headers_view(headers@) + all.headers =~= all.headers);
        while at < src.len()
            invariant
                at <= src@.len(),
                self.wf(),
                self.max_size_limit == old(self).max_size_limit,
                forall|i: int| 0 <= i < headers@.len() ==> (#[trigger] headers@[i])@.wf(),
                all == decode_block(
                    old(self).table@,
                    old(self).max_size_limit as nat,
                    true,
                    src@,
                ),
                ({
                    let rest = decode_block(
                        self.table@,
                        self.max_size_limit as nat,
                        can_resize,
                        src@.skip(at as int),
                    );
                    &&& all.table == rest.table
                    &&& all.error == rest.error
                    &&& all.headers =~= headers_view(headers@) + rest.headers
                }),
            decreases src@.len() - at,
        {
            let ghost rest = src@.skip(at as int);
            match self.decode_one(src, at, can_resize) {
                Err(e) => {
                    assert(headers_view(headers@) + Seq::<HeaderView<Seq<u8>>>::empty()
                        =~= headers_view(headers@));
                    return (headers, Err(e));
                },
                Ok((header, end)) => {
                    proof {
                        assert(rest.skip(end - at) =~= src@.skip(end as int));
                    }
                    match header {
                        Some(h) => {
                            let ghost before = headers@;
                            headers.push(h);
                            can_resize = false;
                            assert(headers_view(headers@) =~= headers_view(before) + seq![h@]);
                        },
                        None => {},
                    }
                    at = end;
                },
            }
        }
        assert(src@.skip(at as int) =~= Seq::empty());
        (headers, Ok(()))
    }

    /// Decodes the representation at `src[at..]`; the second part of the result is
    /// where it ends.
    fn decode_one(&mut self, src: &[u8], at: usize, can_resize: bool) -> (r: Result<
        (Option<Header>, usize),
        DecoderError,
    >)
        requires
            old(self).wf(),
            at < src@.len(),
        ensures
            final(self).wf(),
            final(self).max_size_limit == old(self).max_size_limit,
            match step(
                old(self).table@,
                old(self).max_size_limit as nat,
                can_resize,
                src@.skip(at as int),
            ) {
                Err(e) => r is Err && r->Err_0 == e && final(self).table@ == old(self).table@,
                Ok(s) => {
                    &&& r is Ok
                    &&& final(self).table@ == s.table
                    &&& r->Ok_0.1 == at + s.len
                    &&& s.len >= 1
                    &&& at + s.len <= src@.len()
                    &&& match s.header {
                        Some(h) => r->Ok_0.0 is Some && r->Ok_0.0->0@ == h && h.wf(),
                        None => r->Ok_0.0 is None,
                    }
                },
            },
    {
        proof {
            reveal(step);
        }
        let first: u8 = src[at];
        assert(src@.skip(at as int)[0] == first);
        if first >= 128 {
            match primitive::decode_int(src, at, 127) {
                Err(e) => Err(e),
                Ok((index, end)) => match self.table.get(index as usize) {
                    Err(e) => Err(e),
                    Ok((name, value)) => match Decoder::header(name.as_slice(), value) {
                        Err(e) => Err(e),
                        Ok(header) => Ok((Some(header), end)),
                    },
                },
            }
        } else if first >= 64 {
            match self.decode_literal(src, at, 63) {
                Err(e) => Err(e),
                Ok((name, value, end)) => match Decoder::header(
                    name.as_slice(),
                    crate::frame::util::copy(value.as_slice()),
                ) {
                    Err(e) => Err(e),
                    Ok(header) => {
                        // Insert the header into the table
                        self.table.insert(name, value);
                        Ok((Some(header), end))
                    },
                },
            }
        } else if first >= 32 {
            if !can_resize {
                return Err(DecoderError::InvalidMaxDynamicSize);
            }
            match primitive::decode_int(src, at, 31) {
                Err(e) => Err(e),
                Ok((size, end)) => {
                    if size as usize > self.max_size_limit {
                        return Err(DecoderError::InvalidMaxDynamicSize);
                    }
                    self.table.set_max_size(size as usize);
                    Ok((None, end))
                },
            }
        } else {
            match self.decode_literal(src, at, 15) {
                Err(e) => Err(e),
                Ok((name, value, end)) => match Decoder::header(name.as_slice(), value) {
                    Err(e) => Err(e),
                    Ok(header) => Ok((Some(header), end)),
                },
            }
        }
    }

    /// The header that a name and a value stand for.
    fn header(name: &[u8], value: Vec<u8>) -> (r: Result<Header, DecoderError>)
        ensures
            crate::frame::util::viewed(r) == HeaderView::parsed(name@, value@),
            r matches Ok(h) ==> h@.wf(),
    {
        proof {
            header::parsed_wf(name@, value@);
        }
        Header::new(name, value)
    }

    /// Decodes the name and the value at `src[at..]`; the third part of the result
    /// is where they end.
    fn decode_literal(&self, src: &[u8], at: usize, mask: u8) -> (r: Result<
        (Vec<u8>, Vec<u8>, usize),
        DecoderError,
    >)
        requires
            at < src@.len(),
            mask < 255,
        ensures
            match literal(self.table@, mask, src@.skip(at as int)) {
                Err(e) => r == Err::<(Vec<u8>, Vec<u8>, usize), DecoderError>(e),
                Ok((raw, n)) => {
                    &&& r is Ok
                    &&& r->Ok_0.0@ == raw.0
                    &&& r->Ok_0.1@ == raw.1
                    &&& r->Ok_0.2 == at + n
                    &&& n >= 1
                    &&& at + n <= src@.len()
                },
            },
    {
        let ghost rest = src@.skip(at as int);
        match primitive::decode_int(src, at, mask) {
            Err(e) => Err(e),
            Ok((index, start)) => {
                assert(rest.skip(start - at) =~= src@.skip(start as int));
                if index == 0 {
                    // Read the name as a literal
                    match primitive::decode_string(src, start) {
                        Err(e) => Err(e),
                        Ok((name, mid)) => {
                            assert(rest.skip(mid - at) =~= src@.skip(mid as int));
                            match primitive::decode_string(src, mid) {
                                Err(e) => Err(e),
                                Ok((value, end)) => Ok((name, value, end)),
                            }
                        },
                    }
                } else {
                    match self.table.get(index as usize) {
                        Err(e) => Err(e),
                        Ok((name, _)) => match primitive::decode_string(src, start) {
                            Err(e) => Err(e),
                            Ok((value, end)) => Ok((name, value, end)),
                        },
                    }
                }
            },
        }
    }
}

} // verus!
