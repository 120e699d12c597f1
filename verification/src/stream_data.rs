use ntex_bytes::BytePages;
use vstd::prelude::*;

use crate::frame::data::{DataFlags, DataView};
use crate::frame::{util, Data, StreamId};

verus! {

// ===== Pages =====

/// `ntex_bytes::BytePages`: a buffer that consists of pages.
#[verifier::external_type_specification]
#[verifier::external_body]
pub struct ExBytePages(ntex_bytes::BytePages);

/// The bytes of a buffer, page by page.
pub uninterp spec fn page_bytes(pages: BytePages) -> Seq<u8>;

/// `ntex_bytes::BytePages::len`: the number of bytes in all pages, where it fits the
/// range of numbers.
#[verifier::external_body]
fn pages_len(pages: &BytePages) -> (r: usize)
    requires
        page_bytes(*pages).len() <= usize::MAX,
    ensures
        r == page_bytes(*pages).len(),
{
    pages.len()
}

/// `ntex_bytes::BytePages::take`: the first page is taken out. No page is empty, and
/// there is none where there are no bytes.
#[verifier::external_body]
fn pages_take(pages: &mut BytePages) -> (r: Option<Vec<u8>>)
    requires
        page_bytes(*old(pages)).len() <= usize::MAX,
    ensures
        match r {
            Some(page) => page@.len() > 0 && page_bytes(*old(pages)) == page@ + page_bytes(
                *final(pages),
            ),
            None => page_bytes(*old(pages)).len() == 0 && page_bytes(*final(pages)).len() == 0,
        },
{
    pages.take().map(|page| page.as_ref().to_vec())
}

/// `ntex_bytes::BytePages::prepend`: a page is put in front of the others.
#[verifier::external_body]
fn pages_prepend(pages: &mut BytePages, page: Vec<u8>)
    requires
        page@.len() + page_bytes(*old(pages)).len() <= usize::MAX,
    ensures
        page_bytes(*final(pages)) == page@ + page_bytes(*old(pages)),
{
    pages.prepend(page);
}

// ===== Payload =====

/// Payload of a stream: bytes in one piece or in pages.
#[derive(Debug)]
pub enum StreamData {
    Bytes(Vec<u8>),
    Pages(BytePages),
}

impl View for StreamData {
    type V = Seq<u8>;

    open spec fn view(&self) -> Seq<u8> {
        match *self {
            StreamData::Bytes(b) => b@,
            StreamData::Pages(pages) => page_bytes(pages),
        }
    }
}

impl StreamData {
    /// The number of bytes, where it fits the range of numbers.
    pub fn len(&self) -> (r: usize)
        requires
            self@.len() <= usize::MAX,
        ensures
            r == self@.len(),
    {
        match self {
            StreamData::Bytes(b) => b.len(),
            StreamData::Pages(pages) => pages_len(pages),
        }
    }

    pub fn is_empty(&self) -> (r: bool)
        requires
            self@.len() <= usize::MAX,
        ensures
            r == (self@.len() == 0),
    {
        self.len() == 0
    }

    /// Takes the first `size` bytes out.
    fn split_to(&mut self, size: usize) -> (r: Vec<u8>)
        requires
            size <= old(self)@.len() <= usize::MAX,
        ensures
            r@ == old(self)@.take(size as int),
            final(self)@ == old(self)@.skip(size as int),
    {
        match self {
            StreamData::Bytes(b) => {
                let len: usize = b.len();
                let first = util::copy(&b.as_slice()[0..size]);
                let rest = util::copy(&b.as_slice()[size..len]);
                assert(first@ =~= b@.take(size as int));
                assert(rest@ =~= b@.skip(size as int));
                *b = rest;
                first
            },
            StreamData::Pages(pages) => {
                let ghost all = page_bytes(*pages);
                let mut first: Vec<u8> = Vec::new();
                let mut left: usize = size;
                assert(all =~= first@ + page_bytes(*pages));
                while left > 0
                    invariant
                        size <= all.len() <= usize::MAX,
                        first@.len() + left == size,
                        all == first@ + page_bytes(*pages),
                    decreases left,
                {
                    match pages_take(pages) {
                        None => {
                            assert(false);
                        },
                        Some(page) => {
                            let len: usize = page.len();
                            if len <= left {
                                first.extend_from_slice(page.as_slice());
                                left = left - len;
                            } else {
                                first.extend_from_slice(&page.as_slice()[0..left]);
                                let rest = util::copy(&page.as_slice()[left..len]);
                                assert(page@ =~= page@.take(left as int) + rest@);
                                pages_prepend(pages, rest);
                                left = 0;
                            }
                            assert(all =~= first@ + page_bytes(*pages));
                        },
                    }
                }
                assert(first@ =~= all.take(size as int));
                assert(page_bytes(*pages) =~= all.skip(size as int));
                first
            },
        }
    }

    /// Makes the next DATA frame, of `size` bytes or of all that are left, and
    /// says whether it is the last one.
    pub fn encode(&mut self, id: StreamId, size: usize, eof: bool) -> (r: (Data, bool))
        requires
            id.0 != 0,
            old(self)@.len() <= usize::MAX,
        ensures
            if size >= old(self)@.len() {
                &&& r.0@ == (DataView {
                    stream_id: id,
                    data: old(self)@,
                    flags: DataFlags(
                        if eof {
                            1
                        } else {
                            0
                        },
                    ),
                })
                &&& r.1
                &&& final(self)@.len() == 0
            } else {
                &&& r.0@ == (DataView {
                    stream_id: id,
                    data: old(self)@.take(size as int),
                    flags: DataFlags(0),
                })
                &&& !r.1
                &&& final(self)@ == old(self)@.skip(size as int)
            },
    {
        let len: usize = self.len();
        if size >= len {
            let bytes = self.split_to(len);
            assert(bytes@ =~= old(self)@);
            let mut data = Data::new(id, bytes);
            if eof {
                data.set_end_stream();
                assert(0u8 | 1u8 == 1u8) by (bit_vector);
            }
            (data, true)
        } else {
            (Data::new(id, self.split_to(size)), false)
        }
    }
}

impl From<Vec<u8>> for StreamData {
    fn from(bytes: Vec<u8>) -> (r: StreamData) {
        StreamData::Bytes(bytes)
    }
}

impl vstd::std_specs::convert::FromSpecImpl<Vec<u8>> for StreamData {
    open spec fn obeys_from_spec() -> bool {
        true
    }

    open spec fn from_spec(bytes: Vec<u8>) -> StreamData {
        StreamData::Bytes(bytes)
    }
}

impl From<BytePages> for StreamData {
    fn from(pages: BytePages) -> (r: StreamData) {
        StreamData::Pages(pages)
    }
}

impl vstd::std_specs::convert::FromSpecImpl<BytePages> for StreamData {
    open spec fn obeys_from_spec() -> bool {
        true
    }

    open spec fn from_spec(pages: BytePages) -> StreamData {
        StreamData::Pages(pages)
    }
}

} // verus!
