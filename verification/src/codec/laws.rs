//! What is read of the frames that were written.
use vstd::prelude::*;

use crate::codec::length_delimited::{self, DecodeState, LengthDelimitedCodec};
use crate::codec::partial::PartialView;
use crate::codec::{Codec, Decoded, DecoderView, EncoderError};
use crate::frame::headers::{self, BlockView, HeadersFlag, HeadersView, LoadState, END_HEADERS};
use crate::frame::pseudo::PseudoView;
use crate::frame::{data, go_away, head, ping, reset, settings, window_update};
use crate::frame::{
    ContinuationError, FrameError, FrameView, Head, Kind, Settings, HEADER_LEN,
};
use crate::hpack::header::HeaderView;
use crate::hpack::{self, encoder, primitive, Encoder};
use crate::http;

verus! {

/// Frames are delimited as on an HTTP/2 connection: a three-byte length that does
/// not count the nine header bytes, which belong to the frame.
pub open spec fn http2_framing(framing: LengthDelimitedCodec) -> bool {
    &&& framing.builder.length_field_len == 3
    &&& framing.builder.length_adjustment == 9
    &&& framing.builder.num_skip == Some(0usize)
    &&& framing.state == DecodeState::Head
}

/// The next frame in `bytes + rest` is `bytes`, if its head tells its length.
proof fn delimited(framing: LengthDelimitedCodec, h: Head, payload: Seq<u8>, rest: Seq<u8>)
    requires
        http2_framing(framing),
        h.wf(),
        payload.len() < 0x100_0000,
        payload.len() <= framing.builder.max_frame_len,
    ensures
        ({
            let bytes = h.bytes(payload.len()) + payload;
            &&& bytes.len() == HEADER_LEN + payload.len()
            &&& framing.after_head(bytes + rest) == Ok::<
                Option<(nat, Seq<u8>)>,
                length_delimited::LengthDelimitedCodecError,
            >(Some((bytes.len(), bytes + rest)))
            &&& (bytes + rest).take(bytes.len() as int) == bytes
            &&& (bytes + rest).skip(bytes.len() as int) == rest
            &&& Head::parsed(bytes) == h
            &&& bytes.skip(HEADER_LEN as int) == payload
        }),
{
    let bytes = h.bytes(payload.len()) + payload;
    let all = bytes + rest;
    head::head_round_trip(h, payload.len(), payload);
    head::head_round_trip(h, payload.len(), payload + rest);
    assert(all =~= h.bytes(payload.len()) + (payload + rest));
    let field = all.take(3);
    assert(length_delimited::be_uint(field) == crate::frame::wire::be24(all)) by {
        reveal_with_fuel(length_delimited::be_uint, 4);
        assert(field.drop_last() =~= all.take(2));
        assert(all.take(2).drop_last() =~= all.take(1));
        assert(all.take(1).drop_last() =~= all.take(0));
    }
    assert(all.skip(0) =~= all);
    assert(all.take(bytes.len() as int) =~= bytes);
    assert(all.skip(bytes.len() as int) =~= rest);
    assert(bytes.skip(HEADER_LEN as int) =~= payload);
}

/// A frame that is the same on the wire and in memory: a DATA frame without
/// padding, or a SETTINGS, GOAWAY, PING, WINDOW_UPDATE or RST_STREAM frame.
pub open spec fn is_plain(frame: FrameView) -> bool {
    match frame {
        FrameView::Data(v) => v.wf() && !v.flags.padded() && v.data.len() < 0x100_0000,
        FrameView::Settings(v) => v.wf(),
        FrameView::GoAway(v) => v.wf() && 8 + v.data.len() < 0x100_0000,
        FrameView::Ping(v) => v.wf(),
        FrameView::WindowUpdate(v) => v.wf(),
        FrameView::Reset(v) => v.wf(),
        _ => false,
    }
}

/// `bytes` is the next frame in `bytes + rest`.
#[verifier::opaque]
pub open spec fn is_next(framing: LengthDelimitedCodec, bytes: Seq<u8>, rest: Seq<u8>) -> bool {
    &&& framing.after_head(bytes + rest) == Ok::<
        Option<(nat, Seq<u8>)>,
        length_delimited::LengthDelimitedCodecError,
    >(Some((bytes.len(), bytes + rest)))
    &&& (bytes + rest).take(bytes.len() as int) == bytes
    &&& (bytes + rest).skip(bytes.len() as int) == rest
}

proof fn data_is_read(dec: DecoderView, framing: LengthDelimitedCodec, v: data::DataView, rest: Seq<u8>)
    requires
        is_plain(FrameView::Data(v)),
        http2_framing(framing),
        v.bytes().len() <= HEADER_LEN + framing.builder.max_frame_len,
        dec.partial is None,
    ensures
        is_next(framing, v.bytes(), rest),
        dec.read(v.bytes()) == (
            dec,
            Ok::<Option<FrameView>, FrameError>(Some(FrameView::Data(v))),
        ),
{
    reveal(is_next);
    reveal(DecoderView::read);
    data::data_round_trip(v);
    delimited(framing, v.head(), v.data, rest);
}

proof fn settings_is_read(dec: DecoderView, framing: LengthDelimitedCodec, v: Settings, rest: Seq<u8>)
    requires
        is_plain(FrameView::Settings(v)),
        http2_framing(framing),
        v.bytes().len() <= HEADER_LEN + framing.builder.max_frame_len,
        dec.partial is None,
    ensures
        is_next(framing, v.bytes(), rest),
        dec.read(v.bytes()) == (
            dec,
            Ok::<Option<FrameView>, FrameError>(Some(FrameView::Settings(v))),
        ),
{
    reveal(is_next);
    reveal(DecoderView::read);
    settings::settings_round_trip(v);
    delimited(framing, v.head(), v.payload(), rest);
}

proof fn go_away_is_read(dec: DecoderView, framing: LengthDelimitedCodec, v: go_away::GoAwayView, rest: Seq<u8>)
    requires
        is_plain(FrameView::GoAway(v)),
        http2_framing(framing),
        v.bytes().len() <= HEADER_LEN + framing.builder.max_frame_len,
        dec.partial is None,
    ensures
        is_next(framing, v.bytes(), rest),
        dec.read(v.bytes()) == (
            dec,
            Ok::<Option<FrameView>, FrameError>(Some(FrameView::GoAway(v))),
        ),
{
    reveal(is_next);
    reveal(DecoderView::read);
    go_away::go_away_round_trip(v);
    delimited(framing, v.head(), v.payload(), rest);
}

proof fn ping_is_read(dec: DecoderView, framing: LengthDelimitedCodec, v: ping::PingView, rest: Seq<u8>)
    requires
        is_plain(FrameView::Ping(v)),
        http2_framing(framing),
        v.bytes().len() <= HEADER_LEN + framing.builder.max_frame_len,
        dec.partial is None,
    ensures
        is_next(framing, v.bytes(), rest),
        dec.read(v.bytes()) == (
            dec,
            Ok::<Option<FrameView>, FrameError>(Some(FrameView::Ping(v))),
        ),
{
    reveal(is_next);
    reveal(DecoderView::read);
    ping::ping_round_trip(v);
    delimited(framing, v.head(), v.payload, rest);
}

proof fn window_update_is_read(dec: DecoderView, framing: LengthDelimitedCodec, v: crate::frame::WindowUpdate, rest: Seq<u8>)
    requires
        is_plain(FrameView::WindowUpdate(v)),
        http2_framing(framing),
        v.bytes().len() <= HEADER_LEN + framing.builder.max_frame_len,
        dec.partial is None,
    ensures
        is_next(framing, v.bytes(), rest),
        dec.read(v.bytes()) == (
            dec,
            Ok::<Option<FrameView>, FrameError>(Some(FrameView::WindowUpdate(v))),
        ),
{
    reveal(is_next);
    reveal(DecoderView::read);
    window_update::window_update_round_trip(v);
    delimited(framing, v.head(), crate::frame::wire::be32_bytes(v.size_increment), rest);
}

proof fn reset_is_read(dec: DecoderView, framing: LengthDelimitedCodec, v: crate::frame::Reset, rest: Seq<u8>)
    requires
        is_plain(FrameView::Reset(v)),
        http2_framing(framing),
        v.bytes().len() <= HEADER_LEN + framing.builder.max_frame_len,
        dec.partial is None,
    ensures
        is_next(framing, v.bytes(), rest),
        dec.read(v.bytes()) == (
            dec,
            Ok::<Option<FrameView>, FrameError>(Some(FrameView::Reset(v))),
        ),
{
    reveal(DecoderView::read);
    let code = v.error_code.spec_code();
    let payload = crate::frame::wire::be32_bytes(code);
    assert(payload.len() == 4);
    assert(is_next(framing, v.bytes(), rest)) by {
        reveal(is_next);
        delimited(framing, v.head(), payload, rest);
    }
    reset::reset_round_trip(v);
    assert(Head::parsed(v.bytes()) == v.head()) by {
        head::head_round_trip(v.head(), 4, payload);
    }
}

/// A frame that was written is the next one that is read, provided the reader
/// accepts its length and is not in the middle of a header block. Reading it
/// changes nothing else, and what follows the frame is left.
pub proof fn frame_round_trip(
    dec: DecoderView,
    framing: LengthDelimitedCodec,
    frame: FrameView,
    rest: Seq<u8>,
)
    requires
        is_plain(frame),
        http2_framing(framing),
        frame.bytes().len() <= HEADER_LEN + framing.builder.max_frame_len,
        dec.partial is None,
    ensures
        is_next(framing, frame.bytes(), rest),
        dec.read(frame.bytes()) == (dec, Ok::<Option<FrameView>, FrameError>(Some(frame))),
{
    match frame {
        FrameView::Data(v) => data_is_read(dec, framing, v, rest),
        FrameView::Settings(v) => settings_is_read(dec, framing, v, rest),
        FrameView::GoAway(v) => go_away_is_read(dec, framing, v, rest),
        FrameView::Ping(v) => ping_is_read(dec, framing, v, rest),
        FrameView::WindowUpdate(v) => window_update_is_read(dec, framing, v, rest),
        FrameView::Reset(v) => reset_is_read(dec, framing, v, rest),
        _ => {},
    }
}

/// A frame that was encoded is the one that the next call decodes, provided the
/// reader accepts its length and is not in the middle of a frame or a header block.
/// What follows the frame is left, and the reader is as it was.
pub proof fn frame_is_decoded(
    writer: Codec,
    frame: FrameView,
    buf: Seq<u8>,
    next: Codec,
    after: Seq<u8>,
    rest: Seq<u8>,
    reader: Codec,
    end: Codec,
    left: Seq<u8>,
    r: Decoded,
)
    requires
        is_plain(frame),
        writer.encodes(frame, buf, next, after, Ok(())),
        reader.wf(),
        reader.decoder.state == DecodeState::Head,
        reader.partial is None,
        frame.bytes().len() <= HEADER_LEN + reader.decoder.builder.max_frame_len,
        reader.decodes(after.skip(buf.len() as int) + rest, end, left, r),
    ensures
        r == Ok::<Option<FrameView>, FrameError>(Some(frame)),
        left == rest,
        end.decoder == reader.decoder,
        end.decoder_view() == reader.decoder_view(),
        end.same_settings(reader),
{
    assert(after.skip(buf.len() as int) =~= frame.bytes());
    frame_round_trip(reader.decoder_view(), reader.decoder, frame, rest);
    reveal(is_next);
}

// ===== Header blocks =====

/// Calls of `decode` one after the other, each on what the last one has left.
pub open spec fn decodes_all(codecs: Seq<Codec>, srcs: Seq<Seq<u8>>, results: Seq<Decoded>) -> bool {
    &&& codecs.len() == results.len() + 1
    &&& srcs.len() == results.len() + 1
    &&& forall|i: int| 0 <= i < results.len() ==> #[trigger] decodes_one(codecs, srcs, results, i)
}

/// One of the calls.
pub open spec fn decodes_one(
    codecs: Seq<Codec>,
    srcs: Seq<Seq<u8>>,
    results: Seq<Decoded>,
    i: int,
) -> bool {
    codecs[i].decodes(srcs[i], codecs[i + 1], srcs[i + 1], results[i])
}

/// Of the calls from `from` up to `to` all but the last one give nothing. The last one
/// has the outcome, and leaves the bytes `rest` and a codec that is ready for the next
/// frame.
pub open spec fn yields(
    codecs: Seq<Codec>,
    srcs: Seq<Seq<u8>>,
    results: Seq<Decoded>,
    from: int,
    to: int,
    rest: Seq<u8>,
    outcome: (DecoderView, Decoded),
) -> bool {
    &&& forall|i: int|
        from <= i < to - 1 ==> (#[trigger] results[i]) == Ok::<Option<FrameView>, FrameError>(None)
    &&& results[to - 1] == outcome.1
    &&& codecs[to].decoder_view() == outcome.0
    &&& codecs[to].decoder == codecs[from].decoder
    &&& codecs[to].same_settings(codecs[from])
    &&& srcs[to] == rest
}

/// How many frames a header block of `len` bytes takes, if a frame holds `max`.
pub open spec fn frame_count(len: nat, max: nat) -> nat
    decreases len,
{
    if len > max && max > 0 {
        1 + frame_count((len - max) as nat, max)
    } else {
        1
    }
}

/// A call on a frame and what follows it reads the frame and leaves the rest.
proof fn call_reads(reader: Codec, bytes: Seq<u8>, rest: Seq<u8>, next: Codec, left: Seq<u8>, r: Decoded)
    requires
        is_next(reader.decoder, bytes, rest),
        http2_framing(reader.decoder),
        reader.decodes(bytes + rest, next, left, r),
    ensures
        (next.decoder_view(), r) == reader.decoder_view().read(bytes),
        next.decoder == reader.decoder,
        next.same_settings(reader),
        left == rest,
{
    reveal(is_next);
}

/// A frame of a header block is read as such.
proof fn block_frame_is_read(dec: DecoderView, h: Head, payload: Seq<u8>, bytes: Seq<u8>)
    requires
        Head::parsed(bytes) == h,
        bytes.skip(HEADER_LEN as int) == payload,
    ensures
        h.kind == Kind::Continuation ==> dec.read(bytes) == dec.read_continuation(h, payload),
        h.kind == Kind::Headers && dec.partial is None ==> dec.read(bytes) == dec.read_headers(
            h,
            payload,
        ),
{
    reveal(DecoderView::read);
}

/// A frame behind its head is the next one.
proof fn frame_is_next(framing: LengthDelimitedCodec, h: Head, payload: Seq<u8>, rest: Seq<u8>)
    requires
        http2_framing(framing),
        h.wf(),
        payload.len() < 0x100_0000,
        payload.len() <= framing.builder.max_frame_len,
    ensures
        is_next(framing, h.bytes(payload.len()) + payload, rest),
        (h.bytes(payload.len()) + payload).len() > 0,
        Head::parsed(h.bytes(payload.len()) + payload) == h,
        (h.bytes(payload.len()) + payload).skip(HEADER_LEN as int) == payload,
{
    reveal(is_next);
    delimited(framing, h, payload, rest);
}

/// A call on a CONTINUATION frame that follows its block.
proof fn continuation_is_read(
    reader: Codec,
    h: Head,
    payload: Seq<u8>,
    rest: Seq<u8>,
    next: Codec,
    left: Seq<u8>,
    r: Decoded,
)
    requires
        http2_framing(reader.decoder),
        h.wf(),
        h.kind == Kind::Continuation,
        payload.len() < 0x100_0000,
        payload.len() <= reader.decoder.builder.max_frame_len,
        reader.decodes(h.bytes(payload.len()) + payload + rest, next, left, r),
        ({
            let dec = reader.decoder_view();
            &&& dec.partial is Some
            &&& dec.partial->0.frame.stream_id == h.stream_id
            &&& dec.partial->0.continuations < dec.max_header_continuations
            &&& dec.partial->0.buf.len() + payload.len() <= dec.max_header_list_size
        }),
    ensures
        left == rest,
        next.decoder == reader.decoder,
        next.same_settings(reader),
        ({
            let dec = reader.decoder_view();
            let p = dec.partial->0;
            (next.decoder_view(), r) == if h.flag & END_HEADERS == END_HEADERS {
                (DecoderView { partial: None, ..dec }).finish(p.frame, p.buf + payload, true)
            } else {
                (
                    DecoderView {
                        partial: Some(
                            PartialView {
                                buf: p.buf + payload,
                                continuations: p.continuations + 1,
                                ..p
                            },
                        ),
                        ..dec
                    },
                    Ok::<Option<FrameView>, FrameError>(None),
                )
            }
        }),
{
    let bytes = h.bytes(payload.len()) + payload;
    frame_is_next(reader.decoder, h, payload, rest);
    block_frame_is_read(reader.decoder_view(), h, payload, bytes);
    call_reads(reader, bytes, rest, next, left, r);
}

/// The CONTINUATION frames of a block complete it.
proof fn continuations_are_read(
    codecs: Seq<Codec>,
    srcs: Seq<Seq<u8>>,
    results: Seq<Decoded>,
    at: int,
    h: Head,
    block: Seq<u8>,
    max: nat,
    rest: Seq<u8>,
)
    requires
        decodes_all(codecs, srcs, results),
        0 <= at,
        at + frame_count(block.len(), max) <= results.len(),
        srcs[at] == headers::block_frames(h, block, max) + rest,
        http2_framing(codecs[at].decoder),
        0 < max < 0x100_0000,
        max <= codecs[at].decoder.builder.max_frame_len,
        h.wf(),
        ({
            let dec = codecs[at].decoder_view();
            &&& dec.partial is Some
            &&& h == (Head {
                kind: Kind::Continuation,
                flag: END_HEADERS,
                stream_id: dec.partial->0.frame.stream_id,
            })
            &&& dec.partial->0.continuations + frame_count(block.len(), max)
                <= dec.max_header_continuations
            &&& dec.partial->0.buf.len() + block.len() <= dec.max_header_list_size
        }),
    ensures
        ({
            let dec = codecs[at].decoder_view();
            yields(
                codecs,
                srcs,
                results,
                at,
                at + frame_count(block.len(), max),
                rest,
                (DecoderView { partial: None, ..dec }).finish(
                    dec.partial->0.frame,
                    dec.partial->0.buf + block,
                    true,
                ),
            )
        }),
    decreases block.len(),
{
    let p = codecs[at].decoder_view().partial->0;
    assert(4u8 & 4u8 == 4 && (4u8 ^ 4u8) & 4u8 != 4) by (bit_vector);
    assert(decodes_one(codecs, srcs, results, at));
    if block.len() > max {
        let first = Head { flag: h.flag ^ END_HEADERS, ..h };
        let part = block.take(max as int);
        let others = block.skip(max as int);
        let tail = headers::block_frames(h, others, max) + rest;
        assert(srcs[at] =~= first.bytes(max) + part + tail);
        continuation_is_read(
            codecs[at],
            first,
            part,
            tail,
            codecs[at + 1],
            srcs[at + 1],
            results[at],
        );
        continuations_are_read(codecs, srcs, results, at + 1, h, others, max, rest);
        assert(p.buf + part + others =~= p.buf + block);
    } else {
        assert(srcs[at] =~= h.bytes(block.len()) + block + rest);
        continuation_is_read(
            codecs[at],
            h,
            block,
            rest,
            codecs[at + 1],
            srcs[at + 1],
            results[at],
        );
    }
}

/// A call on the HEADERS frame of a block.
proof fn headers_frame_is_read(
    reader: Codec,
    frame: HeadersView,
    payload: Seq<u8>,
    rest: Seq<u8>,
    next: Codec,
    left: Seq<u8>,
    r: Decoded,
)
    requires
        http2_framing(reader.decoder),
        reader.decoder_view().partial is None,
        frame.stream_id.0 != 0,
        frame.stream_id.wf(),
        frame.flags.0 == 0 || frame.flags.0 == 1 || frame.flags.0 == 4 || frame.flags.0 == 5,
        frame.block == fresh().block,
        payload.len() < 0x100_0000,
        payload.len() <= reader.decoder.builder.max_frame_len,
        reader.decodes(frame.head().bytes(payload.len()) + payload + rest, next, left, r),
    ensures
        left == rest,
        next.decoder == reader.decoder,
        next.same_settings(reader),
        (next.decoder_view(), r) == if frame.flags.0 >= 4 {
            reader.decoder_view().finish(frame, payload, false)
        } else {
            (
                DecoderView {
                    partial: Some(PartialView { frame, buf: payload, continuations: 0 }),
                    ..reader.decoder_view()
                },
                Ok::<Option<FrameView>, FrameError>(None),
            )
        },
{
    let h = frame.head();
    let f = frame.flags.0;
    assert((f == 0 || f == 1 || f == 4 || f == 5) ==> f & 8 != 8 && f & 0x20 != 0x20 && (f & 4 == 4
        <==> f >= 4)) by (bit_vector);
    let bytes = h.bytes(payload.len()) + payload;
    frame_is_next(reader.decoder, h, payload, rest);
    block_frame_is_read(reader.decoder_view(), h, payload, bytes);
    call_reads(reader, bytes, rest, next, left, r);
    assert(payload.take(payload.len() as int) =~= payload);
    assert(HeadersFlag(f) == frame.flags);
}

/// The HEADERS frame of a block and the CONTINUATION frames behind it are read as
/// one block. A block of several frames lacks the `END_HEADERS` flag.
proof fn block_is_read(
    codecs: Seq<Codec>,
    srcs: Seq<Seq<u8>>,
    results: Seq<Decoded>,
    frame: HeadersView,
    block: Seq<u8>,
    max: nat,
    rest: Seq<u8>,
)
    requires
        decodes_all(codecs, srcs, results),
        frame_count(block.len(), max) <= results.len(),
        srcs[0] == headers::block_frames(frame.head(), block, max) + rest,
        http2_framing(codecs[0].decoder),
        frame.stream_id.0 != 0,
        frame.stream_id.wf(),
        frame.flags.0 == 4 || frame.flags.0 == 5,
        frame.block == fresh().block,
        0 < max < 0x100_0000,
        max <= codecs[0].decoder.builder.max_frame_len,
        ({
            let dec = codecs[0].decoder_view();
            &&& dec.partial is None
            &&& frame_count(block.len(), max) <= dec.max_header_continuations + 1
            &&& block.len() <= dec.max_header_list_size || block.len() <= max
        }),
    ensures
        ({
            let dec = codecs[0].decoder_view();
            yields(
                codecs,
                srcs,
                results,
                0,
                frame_count(block.len(), max) as int,
                rest,
                if block.len() <= max {
                    dec.finish(frame, block, false)
                } else {
                    dec.finish(
                        HeadersView { flags: HeadersFlag(frame.flags.0 ^ END_HEADERS), ..frame },
                        block,
                        true,
                    )
                },
            )
        }),
{
    let h = frame.head();
    let f = frame.flags.0;
    assert((4u8 ^ 4u8) == 0 && (5u8 ^ 4u8) == 1) by (bit_vector);
    assert(decodes_one(codecs, srcs, results, 0));
    if block.len() > max {
        let kept = HeadersView { flags: HeadersFlag(f ^ END_HEADERS), ..frame };
        let part = block.take(max as int);
        let others = block.skip(max as int);
        let next_head = Head { kind: Kind::Continuation, flag: END_HEADERS, ..h };
        let tail = headers::block_frames(next_head, others, max) + rest;
        assert(kept.head() == Head { flag: h.flag ^ END_HEADERS, ..h });
        assert(srcs[0] =~= kept.head().bytes(max) + part + tail);
        headers_frame_is_read(codecs[0], kept, part, tail, codecs[1], srcs[1], results[0]);
        continuations_are_read(codecs, srcs, results, 1, next_head, others, max, rest);
        assert(part + others =~= block);
        let dec = codecs[0].decoder_view();
        assert((DecoderView { partial: None, ..codecs[1].decoder_view() }) == dec);
    } else {
        assert(srcs[0] =~= h.bytes(block.len()) + block + rest);
        headers_frame_is_read(codecs[0], frame, block, rest, codecs[1], srcs[1], results[0]);
    }
}

/// Headers that were read one after the other.
proof fn load_concat(st: LoadState, a: Seq<HeaderView<Seq<u8>>>, b: Seq<HeaderView<Seq<u8>>>)
    ensures
        st.all(a + b) == st.all(a).all(b),
    decreases b.len(),
{
    if b.len() == 0 {
        assert(a + b =~= a);
    } else {
        load_concat(st, a, b.drop_last());
        assert((a + b).drop_last() =~= a + b.drop_last());
    }
}

/// A list of at most one header.
proof fn load_single(st: LoadState, h: HeaderView<Seq<u8>>)
    ensures
        st.all(seq![h]) == st.one(h),
        st.all(Seq::empty()) == st,
{
    assert(seq![h].drop_last() =~= Seq::empty());
    assert(st.all(seq![h].drop_last()) == st);
}

/// The state of a block without headers.
pub open spec fn fresh() -> LoadState {
    LoadState::start(BlockView { pseudo: PseudoView::empty(), fields: http::no_fields() })
}

/// Pseudo-headers in the order in which they are written are all taken in.
proof fn load_pseudo(p: PseudoView)
    ensures
        fresh().all(headers::pseudo_list(p)) == fresh().with_pseudo(p),
{
    let l1 = headers::opt_header(p.method, |v| HeaderView::Method(v));
    let l2 = headers::opt_header(p.scheme, |v| HeaderView::Scheme(v));
    let l3 = headers::opt_header(p.authority, |v| HeaderView::Authority(v));
    let l4 = headers::opt_header(p.path, |v| HeaderView::Path(v));
    let l5 = headers::opt_header(p.protocol, |v| HeaderView::Protocol(v));
    let l6 = headers::opt_header(p.status, |v| HeaderView::Status(v));
    let s0 = fresh();
    let p1 = PseudoView { method: p.method, ..PseudoView::empty() };
    let p2 = PseudoView { scheme: p.scheme, ..p1 };
    let p3 = PseudoView { authority: p.authority, ..p2 };
    let p4 = PseudoView { path: p.path, ..p3 };
    let p5 = PseudoView { protocol: p.protocol, ..p4 };
    assert(s0.all(l1) == s0.with_pseudo(p1)) by {
        if let Some(v) = p.method {
            load_single(s0, HeaderView::Method(v));
        }
    }
    let s1 = s0.with_pseudo(p1);
    load_concat(s0, l1, l2);
    assert(s1.all(l2) == s0.with_pseudo(p2)) by {
        if let Some(v) = p.scheme {
            load_single(s1, HeaderView::Scheme(v));
        }
    }
    let s2 = s0.with_pseudo(p2);
    load_concat(s0, l1 + l2, l3);
    assert(s2.all(l3) == s0.with_pseudo(p3)) by {
        if let Some(v) = p.authority {
            load_single(s2, HeaderView::Authority(v));
        }
    }
    let s3 = s0.with_pseudo(p3);
    load_concat(s0, l1 + l2 + l3, l4);
    assert(s3.all(l4) == s0.with_pseudo(p4)) by {
        if let Some(v) = p.path {
            load_single(s3, HeaderView::Path(v));
        }
    }
    let s4 = s0.with_pseudo(p4);
    load_concat(s0, l1 + l2 + l3 + l4, l5);
    assert(s4.all(l5) == s0.with_pseudo(p5)) by {
        if let Some(v) = p.protocol {
            load_single(s4, HeaderView::Protocol(v));
        }
    }
    let s5 = s0.with_pseudo(p5);
    load_concat(s0, l1 + l2 + l3 + l4 + l5, l6);
    assert(s5.all(l6) == s0.with_pseudo(p)) by {
        if let Some(v) = p.status {
            load_single(s5, HeaderView::Status(v));
        }
    }
}

/// A field that may be sent over HTTP/2.
pub open spec fn sendable(name: Seq<u8>, value: Seq<u8>) -> bool {
    &&& !headers::is_connection_field(name)
    &&& name == http::text_bytes("te"@) ==> value == http::text_bytes("trailers"@)
}

/// The fields of a list as they come off the wire: without marks of sensitivity.
pub open spec fn plain_entries(entries: Seq<(Seq<u8>, Seq<u8>, bool)>) -> Seq<
    HeaderView<Seq<u8>>,
> {
    entries.map_values(
        |e: (Seq<u8>, Seq<u8>, bool)|
            HeaderView::Field { name: e.0, value: e.1, sensitive: false },
    )
}

/// The same fields without marks of sensitivity. A name without values is not a
/// field.
pub open spec fn plain_fields(fields: headers::Fields) -> headers::Fields {
    Map::new(
        |name: Seq<u8>| fields.dom().contains(name) && fields[name].len() > 0,
        |name: Seq<u8>| fields[name].map_values(|v: (Seq<u8>, bool)| (v.0, false)),
    )
}

/// Fields that are taken in one after the other make up the map that they list.
proof fn load_entries(st: LoadState, entries: Seq<(Seq<u8>, Seq<u8>, bool)>)
    requires
        st.block.fields == http::no_fields(),
        !st.malformed,
        forall|i: int|
            0 <= i < entries.len() ==> sendable((#[trigger] entries[i]).0, entries[i].1),
    ensures
        ({
            let r = st.all(plain_entries(entries));
            &&& !r.malformed
            &&& r.block.pseudo == st.block.pseudo
            &&& forall|name: Seq<u8>| #[trigger]
                r.block.fields.dom().contains(name) <==> http::values_of(entries, name).len() > 0
            &&& forall|name: Seq<u8>| #[trigger]
                r.block.fields.dom().contains(name) ==> r.block.fields[name] =~= http::values_of(
                    entries,
                    name,
                ).map_values(|v: (Seq<u8>, bool)| (v.0, false))
        }),
    decreases entries.len(),
{
    let list = plain_entries(entries);
    if entries.len() == 0 {
    } else {
        let before = entries.drop_last();
        load_entries(st, before);
        assert(list.drop_last() =~= plain_entries(before));
        let last = entries.last();
        assert(sendable(last.0, last.1));
        let r0 = st.all(plain_entries(before));
        let r = st.all(list);
        assert forall|name: Seq<u8>| true implies (#[trigger] r.block.fields.dom().contains(name)
            <==> http::values_of(entries, name).len() > 0) by {
            assert(r0.block.fields.dom().contains(name) <==> http::values_of(before, name).len()
                > 0);
        }
        assert forall|name: Seq<u8>| #[trigger]
            r.block.fields.dom().contains(name) implies r.block.fields[name] =~= http::values_of(
            entries,
            name,
        ).map_values(|v: (Seq<u8>, bool)| (v.0, false)) by {
            let old_values = http::values_of(before, name);
            assert(r0.block.fields.dom().contains(name) <==> old_values.len() > 0);
        }
    }
}

/// The headers of a block are taken in as the block that they came from.
proof fn load_block(block: BlockView, entries: Seq<(Seq<u8>, Seq<u8>, bool)>)
    requires
        http::lists(block.fields, entries),
        forall|i: int|
            0 <= i < entries.len() ==> sendable((#[trigger] entries[i]).0, entries[i].1),
    ensures
        ({
            let r = fresh().all(
                hpack::laws::plain_all(headers::header_list(block.pseudo, entries)),
            );
            &&& !r.malformed
            &&& r.block == (BlockView {
                pseudo: block.pseudo,
                fields: plain_fields(block.fields),
            })
        }),
{
    let pseudo = headers::pseudo_list(block.pseudo);
    let fields = plain_entries(entries);
    let all = hpack::laws::plain_all(headers::header_list(block.pseudo, entries));
    assert(all =~= hpack::laws::plain_all(pseudo) + fields);
    plain_pseudo(block.pseudo);
    load_pseudo(block.pseudo);
    load_concat(fresh(), pseudo, fields);
    let st = fresh().with_pseudo(block.pseudo);
    load_entries(st, entries);
    let r = st.all(fields);
    assert forall|name: Seq<u8>| true implies (#[trigger] r.block.fields.dom().contains(name)
        <==> plain_fields(block.fields).dom().contains(name)) by {
        assert(http::values_of(entries, name) == http::map_values(block.fields, name));
    }
    assert forall|name: Seq<u8>| #[trigger]
        r.block.fields.dom().contains(name) implies r.block.fields[name] == plain_fields(
        block.fields,
    )[name] by {
        assert(http::values_of(entries, name) == http::map_values(block.fields, name));
    }
    assert(r.block.fields =~= plain_fields(block.fields));
}

/// Pseudo-headers have no marks of sensitivity.
proof fn plain_pseudo(p: PseudoView)
    ensures
        hpack::laws::plain_all(headers::pseudo_list(p)) == headers::pseudo_list(p),
{
    let l = headers::pseudo_list(p);
    let l1 = headers::opt_header(p.method, |v| HeaderView::Method(v));
    let l2 = headers::opt_header(p.scheme, |v| HeaderView::Scheme(v));
    let l3 = headers::opt_header(p.authority, |v| HeaderView::Authority(v));
    let l4 = headers::opt_header(p.path, |v| HeaderView::Path(v));
    let l5 = headers::opt_header(p.protocol, |v| HeaderView::Protocol(v));
    let l6 = headers::opt_header(p.status, |v| HeaderView::Status(v));
    assert forall|i: int| 0 <= i < l.len() implies (#[trigger] l[i]) !is Field by {
        let n1 = l1.len() as int;
        let n2 = n1 + l2.len();
        let n3 = n2 + l3.len();
        let n4 = n3 + l4.len();
        let n5 = n4 + l5.len();
        if i < n1 {
            assert(l[i] == l1[i]);
        } else if i < n2 {
            assert(l[i] == l2[i - n1]);
        } else if i < n3 {
            assert(l[i] == l3[i - n2]);
        } else if i < n4 {
            assert(l[i] == l4[i - n3]);
        } else if i < n5 {
            assert(l[i] == l5[i - n4]);
        } else {
            assert(l[i] == l6[i - n5]);
        }
    }
    assert(hpack::laws::plain_all(l) =~= l);
}

/// The reader takes in headers that are written in this order: the fields may be
/// sent over HTTP/2, and the block is not too long and does not come in too many
/// frames.
pub open spec fn accepts(
    dec: DecoderView,
    enc: Encoder,
    frame: HeadersView,
    entries: Seq<(Seq<u8>, Seq<u8>, bool)>,
    max: nat,
) -> bool {
    let list = headers::header_list(frame.block.pseudo, entries);
    let block = headers::coded_block(enc, list).1;
    &&& forall|i: int|
        0 <= i < entries.len() ==> sendable((#[trigger] entries[i]).0, entries[i].1)
    &&& forall|i: int| 0 <= i < list.len() ==> hpack::laws::encodable(#[trigger] list[i])
    &&& frame_count(block.len(), max) <= dec.max_header_continuations + 1
    &&& block.len() <= dec.max_header_list_size || block.len() <= max
}

/// The reader's compression table is the writer's, and the writer's next table sizes
/// are within the reader's limit.
pub open spec fn in_step(dec: DecoderView, enc: Encoder) -> bool {
    &&& dec.table == enc.table@
    &&& dec.table.wf()
    &&& dec.table.max_size <= u32::MAX
    &&& dec.table_limit < primitive::VARINT_LIMIT
    &&& match enc.size_update {
        None => true,
        Some(encoder::SizeUpdate::One(n)) => n <= dec.table_limit,
        Some(encoder::SizeUpdate::Two(min, n)) => min <= dec.table_limit && n <= dec.table_limit,
    }
}

/// Headers as they are read: fields have no marks of sensitivity.
pub open spec fn read_back(frame: HeadersView, flags: HeadersFlag) -> HeadersView {
    HeadersView {
        stream_id: frame.stream_id,
        flags,
        block: BlockView {
            pseudo: frame.block.pseudo,
            fields: plain_fields(frame.block.fields),
        },
    }
}

/// A block takes no more frames than its bytes hold frame headers.
proof fn frames_counted(h: Head, block: Seq<u8>, max: nat)
    requires
        0 < max,
    ensures
        HEADER_LEN * frame_count(block.len(), max) <= headers::block_frames(h, block, max).len(),
    decreases block.len(),
{
    if block.len() > max {
        let next = Head { kind: Kind::Continuation, flag: END_HEADERS, ..h };
        frames_counted(next, block.skip(max as int), max);
    }
}

/// Headers that were written with their fields in some order are read back.
proof fn list_round_trip(
    writer: Codec,
    frame: HeadersView,
    entries: Seq<(Seq<u8>, Seq<u8>, bool)>,
    buf: Seq<u8>,
    next: Codec,
    after: Seq<u8>,
    rest: Seq<u8>,
    codecs: Seq<Codec>,
    srcs: Seq<Seq<u8>>,
    results: Seq<Decoded>,
) -> (found: (int, HeadersFlag))
    requires
        writer.encodes_list(frame, entries, buf, next, after),
        0 < writer.encoder_max_frame_size < 0x100_0000,
        writer.encoder_max_frame_size <= codecs[0].decoder.builder.max_frame_len,
        frame.stream_id.0 != 0,
        frame.stream_id.wf(),
        frame.flags == HeadersView::new_flags(frame.flags.0 == 5),
        http::lists(frame.block.fields, entries),
        decodes_all(codecs, srcs, results),
        srcs[0] == after.skip(buf.len() as int) + rest,
        after.len() - buf.len() <= HEADER_LEN * results.len(),
        http2_framing(codecs[0].decoder),
        codecs[0].decoder_view().partial is None,
        in_step(codecs[0].decoder_view(), writer.encoder_hpack),
        accepts(
            codecs[0].decoder_view(),
            writer.encoder_hpack,
            frame,
            entries,
            writer.encoder_max_frame_size as nat,
        ),
    ensures
        0 < found.0 <= results.len(),
        yields(
            codecs,
            srcs,
            results,
            0,
            found.0,
            rest,
            (
                DecoderView { table: next.encoder_hpack.table@, ..codecs[0].decoder_view() },
                Ok::<Option<FrameView>, FrameError>(
                    Some(FrameView::Headers(read_back(frame, found.1))),
                ),
            ),
        ),
        found.1.end_stream() == frame.flags.end_stream(),
{
    let dec = codecs[0].decoder_view();
    let enc = writer.encoder_hpack;
    let max = writer.encoder_max_frame_size as nat;
    let list = headers::header_list(frame.block.pseudo, entries);
    let block = headers::coded_block(enc, list);
    let f = frame.flags.0;
    let flags = if block.1.len() <= max {
        frame.flags
    } else {
        HeadersFlag(f ^ END_HEADERS)
    };
    let bare = HeadersView { block: fresh().block, ..frame };
    let sent = headers::block_frames(frame.head(), block.1, max);
    assert(after.skip(buf.len() as int) =~= sent);
    hpack::laws::block_round_trip(dec.table, dec.table_limit, enc.size_update, list);
    load_block(frame.block, entries);
    frames_counted(frame.head(), block.1, max);
    block_is_read(codecs, srcs, results, bare, block.1, max, rest);
    assert((f ^ 4) & 1 == f & 1) by (bit_vector);
    let n = frame_count(block.1.len(), max) as int;
    let outcome = (
        DecoderView { table: block.0, ..dec },
        Ok::<Option<FrameView>, FrameError>(Some(FrameView::Headers(read_back(frame, flags)))),
    );
    assert(dec.finish(HeadersView { flags, ..bare }, block.1, block.1.len() > max) == outcome) by {
        reveal(DecoderView::finish);
    }
    (n, flags)
}

/// Headers that were encoded are decoded: after some calls that return nothing one
/// returns the same stream, the same end of the stream, the same pseudo-headers and
/// the same fields, but for their marks of sensitivity. What follows the headers is
/// left, and the reader has the writer's compression table.
///
/// Returned are the number of calls, which is one for every nine bytes at most, and
/// the flags of the headers that were read. The block may be split into as many
/// frames as the reader accepts; headers that were put together lack the
/// `END_HEADERS` flag. The reader must accept the headers in whichever order their fields are
/// written, and the compression tables of both sides must have been in step.
pub proof fn headers_are_decoded(
    writer: Codec,
    frame: HeadersView,
    buf: Seq<u8>,
    next: Codec,
    after: Seq<u8>,
    sent: Result<(), EncoderError>,
    rest: Seq<u8>,
    codecs: Seq<Codec>,
    srcs: Seq<Seq<u8>>,
    results: Seq<Decoded>,
) -> (found: (int, HeadersFlag))
    requires
        writer.wf(),
        writer.encodes(FrameView::Headers(frame), buf, next, after, sent),
        FrameView::Headers(frame).writable(writer.encoder_max_frame_size as nat),
        frame.stream_id.0 != 0,
        frame.stream_id.wf(),
        frame.flags == HeadersView::new_flags(frame.flags.0 == 5),
        decodes_all(codecs, srcs, results),
        srcs[0] == after.skip(buf.len() as int) + rest,
        after.len() - buf.len() <= HEADER_LEN * results.len(),
        codecs[0].wf(),
        codecs[0].decoder.state == DecodeState::Head,
        codecs[0].partial is None,
        writer.encoder_max_frame_size <= codecs[0].decoder.builder.max_frame_len,
        in_step(codecs[0].decoder_view(), writer.encoder_hpack),
        forall|entries: Seq<(Seq<u8>, Seq<u8>, bool)>| #[trigger]
            http::lists(frame.block.fields, entries) && headers::all_valid(entries) ==> accepts(
                codecs[0].decoder_view(),
                writer.encoder_hpack,
                frame,
                entries,
                writer.encoder_max_frame_size as nat,
            ),
    ensures
        0 < found.0 <= results.len(),
        yields(
            codecs,
            srcs,
            results,
            0,
            found.0,
            rest,
            (
                DecoderView { table: next.encoder_hpack.table@, ..codecs[0].decoder_view() },
                Ok::<Option<FrameView>, FrameError>(
                    Some(FrameView::Headers(read_back(frame, found.1))),
                ),
            ),
        ),
        found.1.end_stream() == frame.flags.end_stream(),
{
    let entries = choose|entries: Seq<(Seq<u8>, Seq<u8>, bool)>| #[trigger]
        http::lists(frame.block.fields, entries) && headers::all_valid(entries)
            && writer.encodes_list(frame, entries, buf, next, after);
    list_round_trip(writer, frame, entries, buf, next, after, rest, codecs, srcs, results)
}

// ===== Continuations =====

/// What is wrong with the order of the frames of a header block is told apart, and
/// no other frame is refused for it: a frame that is not a CONTINUATION while one is
/// expected, a CONTINUATION while there is nothing to continue, and a CONTINUATION
/// of another stream.
pub proof fn continuation_errors(dec: DecoderView, bytes: Seq<u8>)
    requires
        bytes.len() >= HEADER_LEN,
    ensures
        ({
            let head = Head::parsed(bytes);
            let r = dec.read(bytes).1;
            &&& r == refused(ContinuationError::Expected) <==> dec.partial is Some && head.kind
                != Kind::Continuation
            &&& r == refused(ContinuationError::Unexpected) <==> dec.partial is None && head.kind
                == Kind::Continuation
            &&& r == refused(ContinuationError::UnknownStreamId) <==> dec.partial is Some
                && head.kind == Kind::Continuation && dec.partial->0.frame.stream_id
                != head.stream_id
        }),
{
    reveal(DecoderView::read);
    reveal(DecoderView::finish);
    let head = Head::parsed(bytes);
    let payload = bytes.skip(HEADER_LEN as int);
    settings::settings_errors(Settings::empty(), payload);
}

/// The error of a header block whose frames do not follow one another.
pub open spec fn refused(e: ContinuationError) -> Decoded {
    Err(FrameError::Continuation(e))
}

} // verus!
