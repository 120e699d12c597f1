//! What frames are on the wire, byte by byte.
use vstd::prelude::*;

use crate::codec::length_delimited::DecodeState;
use crate::codec::partial::PartialView;
use crate::codec::{Codec, Decoded, DecoderView};
use crate::frame::data::DataView;
use crate::frame::go_away::GoAwayView;
use crate::frame::headers::{self, BlockView, HeadersFlag, HeadersView};
use crate::frame::ping::PingView;
use crate::frame::pseudo::PseudoView;
use crate::frame::{
    wire, FrameError, FrameView, Head, Kind, Priority, Reason, Reset, Settings, StreamId,
    WindowUpdate,
};
use crate::http;

verus! {

/// The four bytes of a number, the most significant one first.
#[verifier::opaque]
pub open spec fn four(n: u32) -> Seq<u8> {
    seq![
        (n / 0x100_0000) as u8,
        (n / 0x1_0000 % 0x100) as u8,
        (n / 0x100 % 0x100) as u8,
        (n % 0x100) as u8,
    ]
}

proof fn four_read(n: u32, rest: Seq<u8>)
    ensures
        four(n).len() == 4,
        wire::be32(four(n) + rest) == n,
        wire::be32(four(n)) == n,
        four(n) == wire::be32_bytes(n),
{
    reveal(four);
    assert(four(n) =~= wire::be32_bytes(n));
    wire::be32_inverse(n, rest);
    wire::be32_inverse(n, Seq::empty());
    assert(wire::be32_bytes(n) + Seq::<u8>::empty() =~= wire::be32_bytes(n));
}

/// A frame on the wire: three bytes of length, one byte of type, one byte of flags,
/// four bytes of stream identifier, and the payload.
#[verifier::opaque]
pub open spec fn wire_frame(kind: u8, flag: u8, id: u32, payload: Seq<u8>) -> Seq<u8> {
    seq![
        (payload.len() / 0x1_0000 % 0x100) as u8,
        (payload.len() / 0x100 % 0x100) as u8,
        (payload.len() % 0x100) as u8,
        kind,
        flag,
    ] + four(id) + payload
}

/// The identifier and the flags of a wire frame are found where they stand.
proof fn wire_head(kind: u8, flag: u8, id: u32, payload: Seq<u8>)
    requires
        id < 0x8000_0000,
    ensures
        ({
            let bytes = wire_frame(kind, flag, id, payload);
            &&& bytes.len() == 9 + payload.len()
            &&& bytes.skip(9) == payload
            &&& Head::parsed(bytes) == (Head {
                kind: Kind::of_byte(kind),
                flag,
                stream_id: StreamId(id),
            })
        }),
{
    reveal(wire_frame);
    four_read(id, payload);
    let bytes = wire_frame(kind, flag, id, payload);
    assert(bytes.skip(9) =~= payload);
    assert(bytes.skip(5) =~= four(id) + payload);
    assert(wire::be32(bytes.skip(5)) == id);
}

// ===== Framing =====

/// A frame that is complete is taken off the front, whatever follows it, and is read
/// as it stands. One that is longer than the reader accepts is refused.
pub proof fn wire_frames_are_delimited(
    reader: Codec,
    kind: u8,
    flag: u8,
    id: u32,
    payload: Seq<u8>,
    rest: Seq<u8>,
    next: Codec,
    left: Seq<u8>,
    r: Decoded,
)
    requires
        reader.wf(),
        reader.decoder.state == DecodeState::Head,
        id < 0x8000_0000,
        payload.len() < 0x100_0000,
        reader.decodes(wire_frame(kind, flag, id, payload) + rest, next, left, r),
    ensures
        payload.len() <= reader.decoder.builder.max_frame_len ==> {
            &&& left == rest
            &&& (next.decoder_view(), r) == reader.decoder_view().read(
                wire_frame(kind, flag, id, payload),
            )
            &&& next.decoder.state == DecodeState::Head
        },
        payload.len() > reader.decoder.builder.max_frame_len ==> r == Err::<
            Option<FrameView>,
            FrameError,
        >(FrameError::MaxFrameSize) && left == wire_frame(kind, flag, id, payload) + rest,
{
    reveal(wire_frame);
    four_read(id, Seq::empty());
    let bytes = wire_frame(kind, flag, id, payload);
    let all = bytes + rest;
    wire_head(kind, flag, id, payload);
    let field = all.take(3);
    assert(crate::codec::length_delimited::be_uint(field) == payload.len()) by {
        reveal_with_fuel(crate::codec::length_delimited::be_uint, 4);
        assert(field.drop_last() =~= all.take(2));
        assert(all.take(2).drop_last() =~= all.take(1));
        assert(all.take(1).drop_last() =~= all.take(0));
    }
    assert(all.skip(0) =~= all);
    assert(all.take(bytes.len() as int) =~= bytes);
    assert(all.skip(bytes.len() as int) =~= rest);
}

/// As long as a frame is not complete nothing is read.
pub proof fn incomplete_frames_wait(
    reader: Codec,
    kind: u8,
    flag: u8,
    id: u32,
    payload: Seq<u8>,
    n: int,
    next: Codec,
    left: Seq<u8>,
    r: Decoded,
)
    requires
        reader.wf(),
        reader.decoder.state == DecodeState::Head,
        id < 0x8000_0000,
        payload.len() < 0x100_0000,
        payload.len() <= reader.decoder.builder.max_frame_len,
        0 <= n < 9 + payload.len(),
        reader.decodes(wire_frame(kind, flag, id, payload).take(n), next, left, r),
    ensures
        r == Ok::<Option<FrameView>, FrameError>(None),
        left == wire_frame(kind, flag, id, payload).take(n),
        next.decoder_view() == reader.decoder_view(),
{
    reveal(wire_frame);
    four_read(id, Seq::empty());
    let bytes = wire_frame(kind, flag, id, payload);
    let all = bytes.take(n);
    wire_head(kind, flag, id, payload);
    if n >= 3 {
        let field = all.take(3);
        assert(crate::codec::length_delimited::be_uint(field) == payload.len()) by {
            reveal_with_fuel(crate::codec::length_delimited::be_uint, 4);
            assert(field.drop_last() =~= all.take(2));
            assert(all.take(2).drop_last() =~= all.take(1));
            assert(all.take(1).drop_last() =~= all.take(0));
        }
        assert(all.skip(0) =~= all);
    }
}

// ===== HEADERS =====

/// The pad length in front of a payload, where there is padding.
pub open spec fn pad_byte(padding: Option<Seq<u8>>) -> Seq<u8> {
    match padding {
        Some(p) => seq![p.len() as u8],
        None => Seq::empty(),
    }
}

/// Bytes that may be absent.
pub open spec fn or_none(bytes: Option<Seq<u8>>) -> Seq<u8> {
    match bytes {
        Some(b) => b,
        None => Seq::empty(),
    }
}

/// The flags of a frame with padding and priority, beside the others.
pub open spec fn layout_flags(flag: u8, padding: Option<Seq<u8>>, priority: Option<Seq<u8>>) -> bool {
    &&& (flag & 0x8 == 0x8 <==> padding is Some)
    &&& (flag & 0x20 == 0x20 <==> priority is Some)
    &&& padding matches Some(p) ==> p.len() <= 255
    &&& priority matches Some(p) ==> p.len() == 5
}

/// A stream that five bytes of priority name.
pub open spec fn named_stream(priority: Seq<u8>) -> int {
    priority[0] % 128 * 0x100_0000 + priority[1] * 0x1_0000 + priority[2] * 0x100 + priority[3]
}

/// A stream identifier is found in bytes of priority, without the exclusive bit.
proof fn dependency_found(p: Seq<u8>, rest: Seq<u8>)
    requires
        p.len() == 5,
    ensures
        StreamId::parsed(p + rest).0 == named_stream(p),
{
    let s = p + rest;
    assert(s[0] == p[0] && s[1] == p[1] && s[2] == p[2] && s[3] == p[3]);
    let top = p[0] as int;
    if top >= 128 {
        assert(top % 128 == top - 128);
    } else {
        assert(top % 128 == top);
    }
}

proof fn fragment_found(
    flag: u8,
    id: u32,
    padding: Option<Seq<u8>>,
    priority: Option<Seq<u8>>,
    fragment: Seq<u8>,
)
    requires
        0 < id < 0x8000_0000,
        layout_flags(flag, padding, priority),
        priority matches Some(p) ==> named_stream(p) != id,
    ensures
        HeadersView::fragment(
            Head { kind: Kind::Headers, flag, stream_id: StreamId(id) },
            pad_byte(padding) + or_none(priority) + fragment + or_none(padding),
        ) == Ok::<Seq<u8>, FrameError>(fragment),
{
    let tail = fragment + or_none(padding);
    let p1 = or_none(priority) + tail;
    let payload = pad_byte(padding) + or_none(priority) + fragment + or_none(padding);
    assert(payload =~= pad_byte(padding) + p1);
    if padding is Some {
        assert(payload.skip(1) =~= p1);
        assert(payload[0] == padding->0.len());
    } else {
        assert(payload =~= p1);
    }
    if priority is Some {
        assert(p1.skip(5) =~= tail);
        dependency_found(priority->0, tail);
    } else {
        assert(p1 =~= tail);
    }
    assert(tail.take(fragment.len() as int) =~= fragment);
}

/// A HEADERS frame consists of the pad length, five bytes of priority, the fragment of
/// a header block and the padding, the first, the second and the last of them only
/// with their flags. The fragment alone is what is read.
pub proof fn headers_off_the_wire(
    dec: DecoderView,
    flag: u8,
    id: u32,
    padding: Option<Seq<u8>>,
    priority: Option<Seq<u8>>,
    fragment: Seq<u8>,
)
    requires
        dec.partial is None,
        0 < id < 0x8000_0000,
        layout_flags(flag, padding, priority),
        priority matches Some(p) ==> named_stream(p) != id,
    ensures
        ({
            let payload = pad_byte(padding) + or_none(priority) + fragment + or_none(padding);
            let bare = HeadersView {
                stream_id: StreamId(id),
                flags: HeadersFlag(flag),
                block: BlockView { pseudo: PseudoView::empty(), fields: http::no_fields() },
            };
            let r = dec.read(wire_frame(1, flag, id, payload));
            if flag & 0x4 == 0x4 {
                r == dec.finish(bare, fragment, false)
            } else {
                r == (
                    DecoderView {
                        partial: Some(
                            PartialView { frame: bare, buf: fragment, continuations: 0 },
                        ),
                        ..dec
                    },
                    Ok::<Option<FrameView>, FrameError>(None),
                )
            }
        }),
{
    let payload = pad_byte(padding) + or_none(priority) + fragment + or_none(padding);
    wire_head(1, flag, id, payload);
    fragment_found(flag, id, padding, priority, fragment);
    assert(dec.read(wire_frame(1, flag, id, payload)) == dec.read_headers(
        Head { kind: Kind::Headers, flag, stream_id: StreamId(id) },
        payload,
    )) by {
        reveal(DecoderView::read);
    }
}

/// The same header block is read as the same headers, with and without priority, with
/// and without padding.
pub proof fn layout_is_no_matter(
    dec: DecoderView,
    eof: bool,
    id: u32,
    padding: Option<Seq<u8>>,
    priority: Option<Seq<u8>>,
    fragment: Seq<u8>,
    flag: u8,
)
    requires
        dec.partial is None,
        0 < id < 0x8000_0000,
        layout_flags(flag, padding, priority),
        flag & 0x4 == 0x4,
        flag & 0x1 == 0x1 <==> eof,
        priority matches Some(p) ==> named_stream(p) != id,
    ensures
        ({
            let payload = pad_byte(padding) + or_none(priority) + fragment + or_none(padding);
            let plain = dec.read(
                wire_frame(
                    1,
                    if eof {
                        5
                    } else {
                        4
                    },
                    id,
                    fragment,
                ),
            );
            let r = dec.read(wire_frame(1, flag, id, payload));
            &&& r.0 == plain.0
            &&& match plain.1 {
                Ok(Some(FrameView::Headers(h))) => r.1 matches Ok(Some(FrameView::Headers(g)))
                    && g.stream_id == h.stream_id && g.block == h.block && (g.flags.0 & 1 == 1
                    <==> h.flags.0 & 1 == 1) && g.stream_id == StreamId(id),
                _ => r.1 == plain.1,
            }
        }),
{
    let flat: u8 = if eof {
        5
    } else {
        4
    };
    assert(5u8 & 0x8 != 0x8 && 5u8 & 0x20 != 0x20 && 5u8 & 4 == 4 && 5u8 & 1 == 1) by (bit_vector);
    assert(4u8 & 0x8 != 0x8 && 4u8 & 0x20 != 0x20 && 4u8 & 4 == 4 && 4u8 & 1 != 1) by (bit_vector);
    headers_off_the_wire(dec, flag, id, padding, priority, fragment);
    headers_off_the_wire(dec, flat, id, None, None, fragment);
    assert(Seq::<u8>::empty() + Seq::<u8>::empty() + fragment + Seq::<u8>::empty() =~= fragment);
    reveal(DecoderView::finish);
}

/// Padding that is longer than what is left of a frame is refused.
pub proof fn too_much_padding(dec: DecoderView, flag: u8, id: u32, pad: u8, payload: Seq<u8>)
    requires
        dec.partial is None,
        0 < id < 0x8000_0000,
        flag & 0x8 == 0x8,
        flag & 0x20 != 0x20,
        pad > payload.len(),
    ensures
        dec.read(wire_frame(0, flag, id, seq![pad] + payload)) == (
            dec,
            Err::<Option<FrameView>, FrameError>(FrameError::TooMuchPadding),
        ),
        dec.read(wire_frame(1, flag, id, seq![pad] + payload)) == (
            dec,
            Err::<Option<FrameView>, FrameError>(FrameError::TooMuchPadding),
        ),
{
    let all = seq![pad] + payload;
    wire_head(0, flag, id, all);
    wire_head(1, flag, id, all);
    reveal(DecoderView::read);
    assert((flag & 0x9) & 0x8 == flag & 0x8) by (bit_vector);
    assert(all.skip(1) =~= payload);
}

// ===== DATA =====

/// A DATA frame consists of the pad length, the data and the padding, the first and the
/// last of them only with their flag. The data alone is what is read.
pub proof fn data_off_the_wire(
    dec: DecoderView,
    flag: u8,
    id: u32,
    padding: Option<Seq<u8>>,
    data: Seq<u8>,
)
    requires
        dec.partial is None,
        0 < id < 0x8000_0000,
        flag & 0x8 == 0x8 <==> padding is Some,
        padding matches Some(p) ==> p.len() <= 255,
    ensures
        ({
            let r = dec.read(
                wire_frame(0, flag, id, pad_byte(padding) + data + or_none(padding)),
            );
            &&& r.0 == dec
            &&& r.1 matches Ok(Some(FrameView::Data(v)))
            &&& v.stream_id.0 == id
            &&& v.data == data
            &&& (v.flags.0 & 1 == 1 <==> flag & 1 == 1)
        }),
{
    let payload = pad_byte(padding) + data + or_none(padding);
    wire_head(0, flag, id, payload);
    reveal(DecoderView::read);
    assert((flag & 0x9) & 0x8 == flag & 0x8 && (flag & 0x9) & 1 == flag & 1) by (bit_vector);
    if padding is Some {
        assert(payload[0] == padding->0.len());
        assert(payload.subrange(1, payload.len() - payload[0]) =~= data);
    } else {
        assert(payload =~= data);
    }
}

/// A DATA frame is written without padding.
pub proof fn data_on_the_wire(v: DataView)
    ensures
        v.bytes() == wire_frame(0, v.flags.0, v.stream_id.0, v.data),
{
    reveal(wire_frame);
    four_read(v.stream_id.0, Seq::empty());
    assert(v.bytes() =~= wire_frame(0, v.flags.0, v.stream_id.0, v.data));
}

// ===== Frames of a fixed size =====

/// RST_STREAM holds an error code.
pub proof fn reset_off_the_wire(dec: DecoderView, flag: u8, id: u32, code: u32, payload: Seq<u8>)
    requires
        dec.partial is None,
        id < 0x8000_0000,
        payload.len() != 4,
    ensures
        dec.read(wire_frame(3, flag, id, four(code))) == (
            dec,
            Ok::<Option<FrameView>, FrameError>(
                Some(
                    FrameView::Reset(
                        Reset { stream_id: StreamId(id), error_code: Reason::of_code(code) },
                    ),
                ),
            ),
        ),
        dec.read(wire_frame(3, flag, id, payload)) == (
            dec,
            Err::<Option<FrameView>, FrameError>(FrameError::InvalidPayloadLength),
        ),
{
    reset_read(dec, flag, id, four(code));
    reset_read(dec, flag, id, payload);
    four_read(code, Seq::empty());
}

proof fn reset_read(dec: DecoderView, flag: u8, id: u32, payload: Seq<u8>)
    requires
        dec.partial is None,
        id < 0x8000_0000,
    ensures
        dec.read(wire_frame(3, flag, id, payload)) == (
            dec,
            match Reset::loaded(
                Head { kind: Kind::Reset, flag, stream_id: StreamId(id) },
                payload,
            ) {
                Ok(v) => Ok::<Option<FrameView>, FrameError>(Some(FrameView::Reset(v))),
                Err(e) => Err(e),
            },
        ),
{
    wire_head(3, flag, id, payload);
    reveal(DecoderView::read);
}

pub proof fn reset_on_the_wire(v: Reset, code: u32)
    requires
        v.error_code == Reason::of_code(code),
    ensures
        v.bytes() == wire_frame(3, 0, v.stream_id.0, four(code)),
{
    reveal(wire_frame);
    four_read(v.stream_id.0, Seq::empty());
    four_read(code, Seq::empty());
    assert(v.error_code.spec_code() == code);
    assert(v.bytes() =~= wire_frame(3, 0, v.stream_id.0, four(code)));
}

/// The error codes of the protocol.
pub proof fn error_codes(code: u32)
    ensures
        Reason::of_code(0) == Reason::NO_ERROR,
        Reason::of_code(1) == Reason::PROTOCOL_ERROR,
        Reason::of_code(2) == Reason::INTERNAL_ERROR,
        Reason::of_code(3) == Reason::FLOW_CONTROL_ERROR,
        Reason::of_code(4) == Reason::SETTINGS_TIMEOUT,
        Reason::of_code(5) == Reason::STREAM_CLOSED,
        Reason::of_code(6) == Reason::FRAME_SIZE_ERROR,
        Reason::of_code(7) == Reason::REFUSED_STREAM,
        Reason::of_code(8) == Reason::CANCEL,
        Reason::of_code(9) == Reason::COMPRESSION_ERROR,
        Reason::of_code(10) == Reason::CONNECT_ERROR,
        Reason::of_code(11) == Reason::ENHANCE_YOUR_CALM,
        Reason::of_code(12) == Reason::INADEQUATE_SECURITY,
        Reason::of_code(13) == Reason::HTTP_1_1_REQUIRED,
        code > 13 ==> Reason::of_code(code) == Reason::Unknown(code),
{
}

/// WINDOW_UPDATE holds an increment of 31 bits; the other bit is ignored.
pub proof fn window_update_off_the_wire(
    dec: DecoderView,
    flag: u8,
    id: u32,
    n: u32,
    payload: Seq<u8>,
)
    requires
        dec.partial is None,
        id < 0x8000_0000,
        payload.len() != 4,
    ensures
        dec.read(wire_frame(8, flag, id, four(n))) == (
            dec,
            Ok::<Option<FrameView>, FrameError>(
                Some(
                    FrameView::WindowUpdate(
                        WindowUpdate {
                            stream_id: StreamId(id),
                            size_increment: if n < 0x8000_0000 {
                                n
                            } else {
                                (n - 0x8000_0000) as u32
                            },
                        },
                    ),
                ),
            ),
        ),
        dec.read(wire_frame(8, flag, id, payload)) == (
            dec,
            Err::<Option<FrameView>, FrameError>(FrameError::BadFrameSize),
        ),
{
    window_update_read(dec, flag, id, four(n));
    window_update_read(dec, flag, id, payload);
    four_read(n, Seq::empty());
}

proof fn window_update_read(dec: DecoderView, flag: u8, id: u32, payload: Seq<u8>)
    requires
        dec.partial is None,
        id < 0x8000_0000,
    ensures
        dec.read(wire_frame(8, flag, id, payload)) == (
            dec,
            match WindowUpdate::loaded(
                Head { kind: Kind::WindowUpdate, flag, stream_id: StreamId(id) },
                payload,
            ) {
                Ok(v) => Ok::<Option<FrameView>, FrameError>(Some(FrameView::WindowUpdate(v))),
                Err(e) => Err(e),
            },
        ),
{
    wire_head(8, flag, id, payload);
    reveal(DecoderView::read);
}

pub proof fn window_update_on_the_wire(v: WindowUpdate)
    ensures
        v.bytes() == wire_frame(8, 0, v.stream_id.0, four(v.size_increment)),
{
    reveal(wire_frame);
    four_read(v.stream_id.0, Seq::empty());
    four_read(v.size_increment, Seq::empty());
    assert(v.bytes() =~= wire_frame(8, 0, v.stream_id.0, four(v.size_increment)));
}

/// PING holds eight bytes, and a flag that tells an answer from a question. It belongs
/// to no stream.
pub proof fn ping_off_the_wire(dec: DecoderView, flag: u8, id: u32, payload: Seq<u8>)
    requires
        dec.partial is None,
        id < 0x8000_0000,
    ensures
        ({
            let r = dec.read(wire_frame(6, flag, id, payload));
            &&& r.0 == dec
            &&& if id != 0 {
                r.1 == Err::<Option<FrameView>, FrameError>(FrameError::InvalidStreamId)
            } else if payload.len() != 8 {
                r.1 == Err::<Option<FrameView>, FrameError>(FrameError::BadFrameSize)
            } else {
                r.1 matches Ok(Some(FrameView::Ping(v))) && v.payload == payload && (v.ack <==> flag
                    & 1 == 1)
            }
        }),
{
    wire_head(6, flag, id, payload);
    reveal(DecoderView::read);
    assert(flag & 1 != 0 <==> flag & 1 == 1) by (bit_vector);
}

pub proof fn ping_on_the_wire(v: PingView)
    requires
        v.payload.len() == 8,
    ensures
        v.bytes() == wire_frame(
            6,
            if v.ack {
                1
            } else {
                0
            },
            0,
            v.payload,
        ),
{
    reveal(wire_frame);
    four_read(0, Seq::empty());
    assert(v.bytes() =~= wire_frame(
        6,
        if v.ack {
            1
        } else {
            0
        },
        0,
        v.payload,
    ));
}

/// GOAWAY holds the last stream, an error code and debug data.
pub proof fn go_away_off_the_wire(
    dec: DecoderView,
    flag: u8,
    id: u32,
    last: u32,
    code: u32,
    data: Seq<u8>,
    short: Seq<u8>,
)
    requires
        dec.partial is None,
        id < 0x8000_0000,
        last < 0x8000_0000,
        short.len() < 8,
    ensures
        dec.read(wire_frame(7, flag, id, four(last) + four(code) + data)) == (
            dec,
            Ok::<Option<FrameView>, FrameError>(
                Some(
                    FrameView::GoAway(
                        GoAwayView {
                            last_stream_id: StreamId(last),
                            error_code: Reason::of_code(code),
                            data,
                        },
                    ),
                ),
            ),
        ),
        dec.read(wire_frame(7, flag, id, short)) == (
            dec,
            Err::<Option<FrameView>, FrameError>(FrameError::BadFrameSize),
        ),
{
    let payload = four(last) + four(code) + data;
    go_away_read(dec, flag, id, payload);
    go_away_read(dec, flag, id, short);
    four_read(last, four(code) + data);
    four_read(code, data);
    assert(payload =~= four(last) + (four(code) + data));
    assert(payload.skip(4) =~= four(code) + data);
    assert(payload.skip(8) =~= data);
}

proof fn go_away_read(dec: DecoderView, flag: u8, id: u32, payload: Seq<u8>)
    requires
        dec.partial is None,
        id < 0x8000_0000,
    ensures
        dec.read(wire_frame(7, flag, id, payload)) == (
            dec,
            match GoAwayView::loaded(payload) {
                Ok(v) => Ok::<Option<FrameView>, FrameError>(Some(FrameView::GoAway(v))),
                Err(e) => Err(e),
            },
        ),
{
    wire_head(7, flag, id, payload);
    reveal(DecoderView::read);
}

pub proof fn go_away_on_the_wire(v: GoAwayView, code: u32)
    requires
        v.error_code == Reason::of_code(code),
    ensures
        v.bytes() == wire_frame(7, 0, 0, four(v.last_stream_id.0) + four(code) + v.data),
{
    reveal(wire_frame);
    four_read(0, Seq::empty());
    four_read(v.last_stream_id.0, Seq::empty());
    four_read(code, Seq::empty());
    assert(v.error_code.spec_code() == code);
    assert(v.bytes() =~= wire_frame(7, 0, 0, four(v.last_stream_id.0) + four(code) + v.data));
}

/// PRIORITY holds the stream that another one depends on, a bit that tells whether it
/// does so alone, and a weight.
pub proof fn priority_off_the_wire(dec: DecoderView, flag: u8, id: u32, payload: Seq<u8>)
    requires
        dec.partial is None,
        id < 0x8000_0000,
    ensures
        ({
            let r = dec.read(wire_frame(2, flag, id, payload));
            &&& r.0 == dec
            &&& if id == 0 {
                r.1 == Err::<Option<FrameView>, FrameError>(FrameError::InvalidStreamId)
            } else if payload.len() != 5 {
                r.1 == Err::<Option<FrameView>, FrameError>(FrameError::InvalidPayloadLength)
            } else if named_stream(payload) == id {
                r.1 == Err::<Option<FrameView>, FrameError>(FrameError::InvalidDependencyId)
            } else {
                &&& r.1 matches Ok(Some(FrameView::Priority(v)))
                &&& v.stream_id.0 == id
                &&& v.dependency.dependency_id.0 == named_stream(payload)
                &&& v.dependency.weight == payload[4]
                &&& v.dependency.is_exclusive == (payload[0] >= 128)
            }
        }),
{
    wire_head(2, flag, id, payload);
    reveal(DecoderView::read);
    if payload.len() == 5 {
        dependency_found(payload, Seq::empty());
        assert(payload + Seq::<u8>::empty() =~= payload);
    }
}

/// Frames of unknown types are ignored, and promises are refused. DATA and HEADERS
/// belong to a stream.
pub proof fn other_frames_off_the_wire(dec: DecoderView, kind: u8, flag: u8, id: u32, payload: Seq<u8>)
    requires
        dec.partial is None,
        id < 0x8000_0000,
    ensures
        kind > 9 ==> dec.read(wire_frame(kind, flag, id, payload)) == (
            dec,
            Ok::<Option<FrameView>, FrameError>(None),
        ),
        dec.read(wire_frame(5, flag, id, payload)) == (
            dec,
            Err::<Option<FrameView>, FrameError>(FrameError::UnexpectedPushPromise),
        ),
        dec.read(wire_frame(0, flag, 0, payload)) == (
            dec,
            Err::<Option<FrameView>, FrameError>(FrameError::InvalidStreamId),
        ),
        dec.read(wire_frame(1, flag, 0, payload)) == (
            dec,
            Err::<Option<FrameView>, FrameError>(FrameError::InvalidStreamId),
        ),
{
    wire_head(kind, flag, id, payload);
    wire_head(5, flag, id, payload);
    wire_head(0, flag, 0, payload);
    wire_head(1, flag, 0, payload);
    reveal(DecoderView::read);
}

/// A CONTINUATION frame goes on with the header block of its stream.
pub proof fn continuation_off_the_wire(dec: DecoderView, flag: u8, id: u32, piece: Seq<u8>)
    requires
        id < 0x8000_0000,
        dec.partial is Some,
    ensures
        dec.read(wire_frame(9, flag, id, piece)) == dec.read_continuation(
            Head { kind: Kind::Continuation, flag, stream_id: StreamId(id) },
            piece,
        ),
{
    wire_head(9, flag, id, piece);
    reveal(DecoderView::read);
}

// ===== SETTINGS =====

/// One setting: two bytes of identifier and four bytes of value.
pub open spec fn setting(id: u16, val: u32) -> Seq<u8> {
    seq![(id / 0x100) as u8, (id % 0x100) as u8] + four(val)
}

/// What one more setting makes of the others. Values that are out of range are refused,
/// and identifiers that are not known are ignored.
pub open spec fn one_more(s: Settings, id: u16, val: u32) -> Result<Settings, FrameError> {
    match id {
        1u16 => Ok(Settings { header_table_size: Some(val), ..s }),
        2u16 if val <= 1 => Ok(Settings { enable_push: Some(val), ..s }),
        3u16 => Ok(Settings { max_concurrent_streams: Some(val), ..s }),
        4u16 if val < 0x8000_0000 => Ok(Settings { initial_window_size: Some(val), ..s }),
        5u16 if 0x4000 <= val < 0x100_0000 => Ok(Settings { max_frame_size: Some(val), ..s }),
        6u16 => Ok(Settings { max_header_list_size: Some(val), ..s }),
        8u16 if val <= 1 => Ok(Settings { enable_connect_protocol: Some(val), ..s }),
        2u16 | 4u16 | 5u16 | 8u16 => Err(FrameError::InvalidSettingValue),
        _ => Ok(s),
    }
}

proof fn settings_read(dec: DecoderView, flag: u8, id: u32, payload: Seq<u8>)
    requires
        dec.partial is None,
        id < 0x8000_0000,
    ensures
        dec.read(wire_frame(4, flag, id, payload)) == (
            dec,
            match Settings::loaded(
                Head { kind: Kind::Settings, flag, stream_id: StreamId(id) },
                payload,
            ) {
                Ok(v) => Ok::<Option<FrameView>, FrameError>(Some(FrameView::Settings(v))),
                Err(e) => Err(e),
            },
        ),
{
    wire_head(4, flag, id, payload);
    reveal(DecoderView::read);
}

/// The settings of a payload are taken one after the other.
proof fn settings_append(s: Settings, payload: Seq<u8>, id: u16, val: u32)
    requires
        payload.len() % 6 == 0,
    ensures
        s.with_all(payload + setting(id, val)) == match s.with_all(payload) {
            Ok(t) => one_more(t, id, val),
            Err(e) => Err(e),
        },
    decreases payload.len(),
{
    let all = payload + setting(id, val);
    four_read(val, Seq::empty());
    if payload.len() == 0 {
        assert(all =~= setting(id, val));
        single_setting(s, id, val);
        assert(s.with_all(payload) == Ok::<Settings, FrameError>(s)) by {
            reveal_with_fuel(Settings::with_all, 1);
        }
    } else {
        assert(all.skip(6) =~= payload.skip(6) + setting(id, val));
        assert(all.skip(2) =~= payload.skip(2) + setting(id, val));
        assert(wire::be32(all.skip(2)) == wire::be32(payload.skip(2)));
        settings_step(s, all);
        settings_step(s, payload);
        match s.with(payload[0] * 0x100 + payload[1], wire::be32(payload.skip(2)) as u32) {
            Ok(t) => settings_append(t, payload.skip(6), id, val),
            Err(_) => {},
        }
    }
}

proof fn settings_step(s: Settings, payload: Seq<u8>)
    requires
        payload.len() >= 6,
    ensures
        s.with_all(payload) == match s.with(
            payload[0] * 0x100 + payload[1],
            wire::be32(payload.skip(2)) as u32,
        ) {
            Ok(t) => t.with_all(payload.skip(6)),
            Err(e) => Err(e),
        },
{
    reveal_with_fuel(Settings::with_all, 1);
}

proof fn single_setting(s: Settings, id: u16, val: u32)
    ensures
        s.with_all(setting(id, val)) == one_more(s, id, val),
{
    let all = setting(id, val);
    four_read(val, Seq::empty());
    assert(all.skip(2) =~= four(val));
    assert(all[0] * 0x100 + all[1] == id);
    settings_step(s, all);
    let rest = all.skip(6);
    assert(rest.len() == 0);
    match s.with(id as int, val) {
        Ok(t) => {
            assert(t.with_all(rest) == Ok::<Settings, FrameError>(t)) by {
                reveal_with_fuel(Settings::with_all, 1);
            }
        },
        Err(_) => {},
    }
}

/// SETTINGS holds settings of six bytes each, the last one of a kind counts. It belongs
/// to no stream, and an acknowledgement holds nothing.
pub proof fn settings_off_the_wire(dec: DecoderView, flag: u8, payload: Seq<u8>, id: u16, val: u32)
    requires
        dec.partial is None,
        flag & 1 != 1,
        payload.len() % 6 == 0,
    ensures
        dec.read(wire_frame(4, flag, 0, Seq::empty())) == (
            dec,
            Ok::<Option<FrameView>, FrameError>(
                Some(
                    FrameView::Settings(
                        Settings {
                            ack: false,
                            header_table_size: None,
                            enable_push: None,
                            max_concurrent_streams: None,
                            initial_window_size: None,
                            max_frame_size: None,
                            max_header_list_size: None,
                            enable_connect_protocol: None,
                        },
                    ),
                ),
            ),
        ),
        ({
            let all = dec.read(wire_frame(4, flag, 0, payload + setting(id, val)));
            match dec.read(wire_frame(4, flag, 0, payload)).1 {
                Ok(Some(FrameView::Settings(s))) => match one_more(s, id, val) {
                    Ok(t) => all == (
                        dec,
                        Ok::<Option<FrameView>, FrameError>(Some(FrameView::Settings(t))),
                    ),
                    Err(e) => all == (dec, Err::<Option<FrameView>, FrameError>(e)),
                },
                Err(e) => all == (dec, Err::<Option<FrameView>, FrameError>(e)),
                _ => false,
            }
        }),
{
    settings_read(dec, flag, 0, Seq::empty());
    settings_read(dec, flag, 0, payload);
    settings_read(dec, flag, 0, payload + setting(id, val));
    settings_append(Settings::empty(), payload, id, val);
    four_read(val, Seq::empty());
    assert((payload + setting(id, val)).len() == payload.len() + 6);
    assert(Settings::empty().with_all(Seq::empty()) == Ok::<Settings, FrameError>(
        Settings::empty(),
    )) by {
        reveal_with_fuel(Settings::with_all, 1);
    }
}

/// Settings that are broken: of a stream, of a length that no settings have, or an
/// acknowledgement with settings.
pub proof fn broken_settings(dec: DecoderView, flag: u8, id: u32, payload: Seq<u8>)
    requires
        dec.partial is None,
        id < 0x8000_0000,
    ensures
        ({
            let r = dec.read(wire_frame(4, flag, id, payload));
            &&& r.0 == dec
            &&& id != 0 ==> r.1 == Err::<Option<FrameView>, FrameError>(
                FrameError::InvalidStreamId,
            )
            &&& id == 0 && flag & 1 == 1 && payload.len() > 0 ==> r.1 == Err::<
                Option<FrameView>,
                FrameError,
            >(FrameError::InvalidPayloadLength)
            &&& id == 0 && flag & 1 == 1 && payload.len() == 0 ==> (r.1 matches Ok(
                Some(FrameView::Settings(s)),
            ) && s.ack && s.initial_window_size is None && s.max_frame_size is None)
            &&& id == 0 && flag & 1 != 1 && payload.len() % 6 != 0 ==> r.1 == Err::<
                Option<FrameView>,
                FrameError,
            >(FrameError::InvalidPayloadAckSettings)
        }),
{
    settings_read(dec, flag, id, payload);
}

/// A setting that is set is written, and one that is not is left out.
pub open spec fn setting_or_none(id: u16, val: Option<u32>) -> Seq<u8> {
    match val {
        Some(v) => setting(id, v),
        None => Seq::empty(),
    }
}

/// The settings on the wire: an acknowledgement has the first flag and holds nothing.
pub proof fn settings_on_the_wire(s: Settings)
    ensures
        s.bytes() == wire_frame(
            4,
            if s.ack {
                1
            } else {
                0
            },
            0,
            setting_or_none(1, s.header_table_size) + setting_or_none(2, s.enable_push)
                + setting_or_none(3, s.max_concurrent_streams) + setting_or_none(
                4,
                s.initial_window_size,
            ) + setting_or_none(5, s.max_frame_size) + setting_or_none(6, s.max_header_list_size)
                + setting_or_none(8, s.enable_connect_protocol),
        ),
{
    reveal(wire_frame);
    four_read(0, Seq::empty());
    reveal(crate::frame::settings::option_bytes);
    assert forall|id: u8, v: Option<u32>| crate::frame::settings::option_bytes(id, v)
        == #[trigger] setting_or_none(id as u16, v) by {
        if let Some(n) = v {
            four_read(n, Seq::empty());
        }
        assert(crate::frame::settings::option_bytes(id, v) =~= setting_or_none(id as u16, v));
    }
    let flag: u8 = if s.ack {
        1
    } else {
        0
    };
    assert(s.bytes() =~= wire_frame(4, flag, 0, s.payload()));
    assert(setting_or_none(1u8 as u16, s.header_table_size) == setting_or_none(
        1,
        s.header_table_size,
    ));
    assert(setting_or_none(2u8 as u16, s.enable_push) == setting_or_none(2, s.enable_push));
    assert(setting_or_none(3u8 as u16, s.max_concurrent_streams) == setting_or_none(
        3,
        s.max_concurrent_streams,
    ));
    assert(setting_or_none(4u8 as u16, s.initial_window_size) == setting_or_none(
        4,
        s.initial_window_size,
    ));
    assert(setting_or_none(5u8 as u16, s.max_frame_size) == setting_or_none(5, s.max_frame_size));
    assert(setting_or_none(6u8 as u16, s.max_header_list_size) == setting_or_none(
        6,
        s.max_header_list_size,
    ));
    assert(setting_or_none(8u8 as u16, s.enable_connect_protocol) == setting_or_none(
        8,
        s.enable_connect_protocol,
    ));
}

// ===== Header blocks =====

/// A header block is written as one HEADERS frame where it fits. Where it does not,
/// a HEADERS frame without the flag that ends the block comes first.
pub proof fn block_on_the_wire(frame: HeadersView, block: Seq<u8>, max: nat)
    requires
        0 < max,
        frame.flags.0 == 4 || frame.flags.0 == 5,
    ensures
        ({
            let bytes = headers::block_frames(frame.head(), block, max);
            let end: u8 = (frame.flags.0 - 4) as u8;
            if block.len() <= max {
                bytes == wire_frame(1, frame.flags.0, frame.stream_id.0, block)
            } else {
                bytes == wire_frame(1, end, frame.stream_id.0, block.take(max as int))
                    + continued(frame.stream_id, block.skip(max as int), max)
            }
        }),
{
    reveal(wire_frame);
    four_read(frame.stream_id.0, Seq::empty());
    let f = frame.flags.0;
    assert(4u8 ^ 4 == 0 && 5u8 ^ 4 == 1) by (bit_vector);
    let bytes = headers::block_frames(frame.head(), block, max);
    if block.len() <= max {
        assert(bytes =~= wire_frame(1, f, frame.stream_id.0, block));
    } else {
        let rest = block.skip(max as int);
        rest_on_the_wire(frame.stream_id, rest, max);
        let end: u8 = (f - 4) as u8;
        assert(block.take(max as int).len() == max);
        assert(bytes =~= wire_frame(1, end, frame.stream_id.0, block.take(max as int)) + continued(
            frame.stream_id,
            rest,
            max,
        ));
    }
}

/// The rest of a header block: CONTINUATION frames, of which the last one alone has the
/// flag that ends the block.
pub open spec fn continued(id: StreamId, block: Seq<u8>, max: nat) -> Seq<u8>
    decreases block.len(),
{
    if block.len() <= max || max == 0 {
        wire_frame(9, 4, id.0, block)
    } else {
        wire_frame(9, 0, id.0, block.take(max as int)) + continued(
            id,
            block.skip(max as int),
            max,
        )
    }
}

proof fn rest_on_the_wire(id: StreamId, block: Seq<u8>, max: nat)
    requires
        0 < max,
    ensures
        headers::block_frames(
            Head { kind: Kind::Continuation, flag: 4, stream_id: id },
            block,
            max,
        ) == continued(id, block, max),
    decreases block.len(),
{
    reveal(wire_frame);
    four_read(id.0, Seq::empty());
    let h = Head { kind: Kind::Continuation, flag: 4, stream_id: id };
    assert(4u8 ^ 4 == 0) by (bit_vector);
    if block.len() <= max {
        assert(headers::block_frames(h, block, max) =~= continued(id, block, max));
    } else {
        rest_on_the_wire(id, block.skip(max as int), max);
        assert(block.take(max as int).len() == max);
        assert(headers::block_frames(h, block, max) =~= continued(id, block, max));
    }
}

} // verus!
