//! What header blocks on the wire are read as, whole or in pieces.
use vstd::prelude::*;

use crate::codec::partial::PartialView;
use crate::codec::wire_laws::{self, wire_frame};
use crate::codec::DecoderView;
use crate::frame::block;
use crate::frame::{ContinuationError, FrameError, FrameView, StreamId};
use crate::hpack::decoder;
use crate::hpack::header::HeaderView;
use crate::http;

verus! {

/// A header block in one frame is read as the headers that its bytes stand for: it is an
/// error where the bytes are, and malformed exactly where a header is misplaced.
/// Otherwise it has the fields of the headers, each with its values in their order, and
/// their pseudo-headers. The table follows in either case.
pub proof fn block_is_its_headers(
    dec: DecoderView,
    flag: u8,
    id: u32,
    bytes: Seq<u8>,
    name: Seq<u8>,
    i: int,
)
    requires
        dec.partial is None,
        0 < id < 0x8000_0000,
        flag & 0x4 == 0x4,
        flag & 0x8 != 0x8,
        flag & 0x20 != 0x20,
    ensures
        ({
            let list = decoder::decode_block(dec.table, dec.table_limit, true, bytes);
            let (next, r) = dec.read(wire_frame(1, flag, id, bytes));
            &&& next == (DecoderView { table: list.table, ..dec })
            &&& match list.error {
                Some(e) => r == Err::<Option<FrameView>, FrameError>(FrameError::Hpack(e)),
                None => if exists|k: int|
                    0 <= k < list.headers.len() && #[trigger] block::misplaced(list.headers, k) {
                    r == Err::<Option<FrameView>, FrameError>(FrameError::MalformedMessage)
                } else {
                    &&& r matches Ok(Some(FrameView::Headers(h)))
                    &&& h.stream_id == StreamId(id)
                    &&& h.flags.0 == flag
                    &&& (h.block.fields.dom().contains(name) <==> block::taken_values(
                        list.headers,
                        name,
                    ).len() > 0)
                    &&& h.block.fields.dom().contains(name) ==> h.block.fields[name]
                        == block::taken_values(list.headers, name)
                    &&& 0 <= i < list.headers.len() ==> {
                        let p = h.block.pseudo;
                        &&& list.headers[i] matches HeaderView::Authority(v) ==> p.authority == Some(
                            v,
                        )
                        &&& list.headers[i] matches HeaderView::Method(v) ==> p.method == Some(v)
                        &&& list.headers[i] matches HeaderView::Scheme(v) ==> p.scheme == Some(v)
                        &&& list.headers[i] matches HeaderView::Path(v) ==> p.path == Some(v)
                        &&& list.headers[i] matches HeaderView::Protocol(v) ==> p.protocol == Some(v)
                        &&& list.headers[i] matches HeaderView::Status(v) ==> p.status == Some(v)
                    }
                },
            }
        }),
{
    wire_laws::headers_off_the_wire(dec, flag, id, None, None, bytes);
    assert(Seq::<u8>::empty() + Seq::<u8>::empty() + bytes + Seq::<u8>::empty() =~= bytes);
    reveal(DecoderView::finish);
    let list = decoder::decode_block(dec.table, dec.table_limit, true, bytes);
    block::malformed_blocks(list.headers);
    block::fields_in_order(list.headers, name);
    assert(http::no_fields() =~= Map::empty());
    if !block::no_headers().all(list.headers).malformed && 0 <= i < list.headers.len() {
        block::pseudo_headers_kept(list.headers, i);
    }
}

/// What is read of a header block, but for the flags of its first frame.
pub open spec fn same_headers(
    whole: Result<Option<FrameView>, FrameError>,
    split: Result<Option<FrameView>, FrameError>,
) -> bool {
    match whole {
        Ok(Some(FrameView::Headers(h))) => split matches Ok(Some(FrameView::Headers(g)))
            && g.stream_id == h.stream_id && g.block == h.block && (g.flags.0 & 1 == 1
            <==> h.flags.0 & 1 == 1),
        Err(FrameError::MalformedMessage) => split == Err::<Option<FrameView>, FrameError>(
            FrameError::Continuation(ContinuationError::Malformed),
        ),
        _ => split == whole,
    }
}

/// A header block that comes in two frames is the same as in one: nothing comes of the
/// first frame, and the second one brings the headers of both pieces together.
pub proof fn split_blocks_are_joined(
    dec: DecoderView,
    eof: bool,
    id: u32,
    first: Seq<u8>,
    second: Seq<u8>,
)
    requires
        dec.partial is None,
        0 < id < 0x8000_0000,
        dec.max_header_continuations > 0,
        first.len() + second.len() <= dec.max_header_list_size,
    ensures
        ({
            let flag: u8 = if eof {
                1
            } else {
                0
            };
            let (mid, r1) = dec.read(wire_frame(1, flag, id, first));
            let (next, r2) = mid.read(wire_frame(9, 4, id, second));
            let whole = dec.read(
                wire_frame(
                    1,
                    if eof {
                        5
                    } else {
                        4
                    },
                    id,
                    first + second,
                ),
            );
            &&& r1 == Ok::<Option<FrameView>, FrameError>(None)
            &&& mid.table == dec.table
            &&& next == whole.0
            &&& same_headers(whole.1, r2)
        }),
{
    let flag: u8 = if eof {
        1
    } else {
        0
    };
    let full: u8 = if eof {
        5
    } else {
        4
    };
    assert(0u8 & 0x8 != 0x8 && 0u8 & 0x20 != 0x20 && 0u8 & 4 != 4 && 0u8 & 1 != 1 && 1u8 & 0x8
        != 0x8 && 1u8 & 0x20 != 0x20 && 1u8 & 4 != 4 && 1u8 & 1 == 1 && 5u8 & 0x8 != 0x8 && 5u8
        & 0x20 != 0x20 && 5u8 & 4 == 4 && 5u8 & 1 == 1 && 4u8 & 0x8 != 0x8 && 4u8 & 0x20 != 0x20
        && 4u8 & 4 == 4 && 4u8 & 1 != 1) by (bit_vector);
    let none = Seq::<u8>::empty();
    assert(none + none + first + none =~= first);
    let all = first + second;
    assert(none + none + all + none =~= all);
    wire_laws::headers_off_the_wire(dec, flag, id, None, None, first);
    wire_laws::headers_off_the_wire(dec, full, id, None, None, all);
    let mid = dec.read(wire_frame(1, flag, id, first)).0;
    wire_laws::continuation_off_the_wire(mid, 4, id, second);
    reveal(DecoderView::finish);
    assert(DecoderView { partial: None, ..mid } == dec);
}

/// A piece of a header block that is not the last one is kept with the others. One
/// piece too many, or one that makes the block too large, ends the block with an error.
pub proof fn pieces_are_limited(dec: DecoderView, flag: u8, id: u32, piece: Seq<u8>)
    requires
        id < 0x8000_0000,
        dec.partial is Some,
        dec.partial->0.frame.stream_id.0 == id,
        flag & 4 != 4,
    ensures
        ({
            let p = dec.partial->0;
            let (next, r) = dec.read(wire_frame(9, flag, id, piece));
            if p.continuations >= dec.max_header_continuations {
                &&& r == Err::<Option<FrameView>, FrameError>(
                    FrameError::Continuation(ContinuationError::MaxContinuations),
                )
                &&& next.partial is None
            } else if p.buf.len() + piece.len() > dec.max_header_list_size {
                &&& r == Err::<Option<FrameView>, FrameError>(
                    FrameError::Continuation(ContinuationError::MaxLeftoverSize),
                )
                &&& next.partial is None
            } else {
                &&& r == Ok::<Option<FrameView>, FrameError>(None)
                &&& next.partial == Some(
                    PartialView {
                        frame: p.frame,
                        buf: p.buf + piece,
                        continuations: p.continuations + 1,
                    },
                )
                &&& next.table == dec.table
            }
        }),
{
    wire_laws::continuation_off_the_wire(dec, flag, id, piece);
}

} // verus!
