//! Frames to bytes and back.
use vstd::prelude::*;

pub mod block_laws;
pub mod error;
pub mod laws;
pub mod length_delimited;
pub mod partial;
pub mod wire_laws;

pub use self::error::EncoderError;
use self::length_delimited::{Builder, DecodeState, LengthDelimitedCodec};
use self::partial::{Partial, PartialView};

use crate::frame::headers::{self, BlockView, HeadersFlag, HeadersView, LoadState, END_HEADERS};
use crate::frame::{data, go_away, ping, util};
use crate::frame::{
    ContinuationError, Data, Frame, FrameError, FrameView, GoAway, Head, Headers, Kind, Ping,
    Priority, Reset, Settings, WindowUpdate, HEADER_LEN,
};
use crate::hpack::table::TableView;
use crate::hpack::{decoder, Decoder, Encoder};
use crate::http;
use crate::{consts, frame};

verus! {

/// Reads and writes the frames of one connection.
pub struct Codec {
    // encoder state
    pub encoder_hpack: Encoder,
    /// Max frame size, this is specified by the peer
    pub encoder_max_frame_size: frame::FrameSize,
    // decoder state
    pub decoder: LengthDelimitedCodec,
    pub decoder_hpack: Decoder,
    pub decoder_max_header_list_size: usize,
    pub decoder_max_header_continuations: usize,
    /// Partially loaded headers frame
    pub partial: Option<Partial>,
}

/// What decides how bytes are read.
#[verifier::ext_equal]
pub struct DecoderView {
    /// The compression table.
    pub table: TableView,
    /// The largest table size that the peer may choose.
    pub table_limit: nat,
    /// How many bytes of a header block may be buffered.
    pub max_header_list_size: nat,
    /// How many CONTINUATION frames a header block may have.
    pub max_header_continuations: nat,
    /// The header block that waits for its next frame.
    pub partial: Option<PartialView>,
}

impl DecoderView {
    /// A header block that waits for its next frame belongs to a stream, and what
    /// was taken in of it has values.
    pub open spec fn wf(self) -> bool {
        self.partial matches Some(p) ==> p.frame.stream_id.0 != 0 && http::valued(
            p.frame.block.fields,
        )
    }

    proof fn finish_valid(self, headers: HeadersView, block: Seq<u8>, continued: bool)
        requires
            headers.stream_id.wf(),
            headers.stream_id.0 != 0,
            http::valued(headers.block.fields),
        ensures
            self.wf() ==> self.finish(headers, block, continued).0.wf(),
            self.finish(headers, block, continued).1 matches Ok(Some(f)) ==> f.valid(),
    {
        reveal(DecoderView::finish);
        let outcome = decoder::decode_block(self.table, self.table_limit, true, block);
        headers::load_valued(LoadState::start(headers.block), outcome.headers);
    }

    /// Frames off the wire are within their ranges: a frame that was read can be
    /// handled.
    pub proof fn read_valid(self, bytes: Seq<u8>)
        requires
            self.wf(),
            bytes.len() >= HEADER_LEN,
        ensures
            self.read(bytes).0.wf(),
            self.read(bytes).1 matches Ok(Some(f)) ==> f.valid(),
    {
        reveal(DecoderView::read);
        let head = Head::parsed(bytes);
        let payload = bytes.skip(HEADER_LEN as int);
        frame::settings::loaded_settings_valid(head, payload);
        assert(head.stream_id.wf());
        match HeadersView::fragment(head, payload) {
            Ok(block) => {
                let headers = HeadersView {
                    stream_id: head.stream_id,
                    flags: HeadersFlag(head.flag),
                    block: BlockView {
                        pseudo: crate::frame::pseudo::PseudoView::empty(),
                        fields: http::no_fields(),
                    },
                };
                self.finish_valid(headers, block, false);
            },
            Err(_) => {},
        }
        match self.partial {
            Some(p) => {
                let rest = DecoderView { partial: None, ..self };
                if p.frame.stream_id == head.stream_id {
                    rest.finish_valid(p.frame, p.buf + payload, true);
                }
            },
            None => {},
        }
    }
}

/// A frame that was read, or why there is none.
pub type Decoded = Result<Option<FrameView>, FrameError>;

impl DecoderView {
    /// Reads the headers of a complete block. Where the block came in several
    /// frames, a malformed one counts as an error of its continuation.
    #[verifier::opaque]
    pub open spec fn finish(self, headers: HeadersView, block: Seq<u8>, continued: bool) -> (
        DecoderView,
        Decoded,
    ) {
        let outcome = decoder::decode_block(self.table, self.table_limit, true, block);
        let loaded = LoadState::start(headers.block).all(outcome.headers);
        let next = DecoderView { table: outcome.table, ..self };
        match headers::load_result(outcome.error, loaded.malformed) {
            Ok(_) => (
                next,
                Ok(Some(FrameView::Headers(HeadersView { block: loaded.block, ..headers }))),
            ),
            Err(e) => if continued && e == FrameError::MalformedMessage {
                (next, Err(FrameError::Continuation(ContinuationError::Malformed)))
            } else {
                (next, Err(e))
            },
        }
    }

    /// Reads a HEADERS frame.
    pub open spec fn read_headers(self, head: Head, payload: Seq<u8>) -> (DecoderView, Decoded) {
        match HeadersView::fragment(head, payload) {
            Err(e) => (self, Err(e)),
            Ok(block) => {
                let headers = HeadersView {
                    stream_id: head.stream_id,
                    flags: HeadersFlag(head.flag),
                    block: BlockView {
                        pseudo: crate::frame::pseudo::PseudoView::empty(),
                        fields: http::no_fields(),
                    },
                };
                if headers.flags.end_headers() {
                    self.finish(headers, block, false)
                } else {
                    // Defer returning the frame
                    let partial = PartialView { frame: headers, buf: block, continuations: 0 };
                    (DecoderView { partial: Some(partial), ..self }, Ok(None))
                }
            },
        }
    }

    /// Reads a CONTINUATION frame. An error ends the header block.
    pub open spec fn read_continuation(self, head: Head, payload: Seq<u8>) -> (
        DecoderView,
        Decoded,
    ) {
        let rest = DecoderView { partial: None, ..self };
        match self.partial {
            None => (self, Err(FrameError::Continuation(ContinuationError::Unexpected))),
            Some(p) => if p.frame.stream_id != head.stream_id {
                (rest, Err(FrameError::Continuation(ContinuationError::UnknownStreamId)))
            } else if p.continuations >= self.max_header_continuations {
                (rest, Err(FrameError::Continuation(ContinuationError::MaxContinuations)))
            } else if p.buf.len() + payload.len() > self.max_header_list_size {
                (rest, Err(FrameError::Continuation(ContinuationError::MaxLeftoverSize)))
            } else if head.flag & END_HEADERS == END_HEADERS {
                rest.finish(p.frame, p.buf + payload, true)
            } else {
                let partial = PartialView {
                    buf: p.buf + payload,
                    continuations: p.continuations + 1,
                    ..p
                };
                (DecoderView { partial: Some(partial), ..self }, Ok(None))
            },
        }
    }

    /// Reads a complete frame.
    ///
    /// While a header block is incomplete nothing but its continuation may come.
    /// Unknown frames are ignored, and push is refused.
    #[verifier::opaque]
    pub open spec fn read(self, bytes: Seq<u8>) -> (DecoderView, Decoded) {
        let head = Head::parsed(bytes);
        let payload = bytes.skip(HEADER_LEN as int);
        if self.partial is Some && head.kind != Kind::Continuation {
            (self, Err(FrameError::Continuation(ContinuationError::Expected)))
        } else {
            match head.kind {
                Kind::Settings => (
                    self,
                    match Settings::loaded(head, payload) {
                        Ok(v) => Ok(Some(FrameView::Settings(v))),
                        Err(e) => Err(e),
                    },
                ),
                Kind::Ping => (
                    self,
                    match ping::PingView::loaded(head, payload) {
                        Ok(v) => Ok(Some(FrameView::Ping(v))),
                        Err(e) => Err(e),
                    },
                ),
                Kind::WindowUpdate => (
                    self,
                    match WindowUpdate::loaded(head, payload) {
                        Ok(v) => Ok(Some(FrameView::WindowUpdate(v))),
                        Err(e) => Err(e),
                    },
                ),
                Kind::Data => (
                    self,
                    match data::DataView::loaded(head, payload) {
                        Ok(v) => Ok(Some(FrameView::Data(v))),
                        Err(e) => Err(e),
                    },
                ),
                Kind::Headers => self.read_headers(head, payload),
                Kind::Reset => (
                    self,
                    match Reset::loaded(head, payload) {
                        Ok(v) => Ok(Some(FrameView::Reset(v))),
                        Err(e) => Err(e),
                    },
                ),
                Kind::GoAway => (
                    self,
                    match go_away::GoAwayView::loaded(payload) {
                        Ok(v) => Ok(Some(FrameView::GoAway(v))),
                        Err(e) => Err(e),
                    },
                ),
                Kind::PushPromise => (self, Err(FrameError::UnexpectedPushPromise)),
                Kind::Priority => (
                    self,
                    if head.stream_id.0 == 0 {
                        Err(FrameError::InvalidStreamId)
                    } else {
                        match Priority::loaded(head, payload) {
                            Ok(v) => Ok(Some(FrameView::Priority(v))),
                            Err(e) => Err(e),
                        }
                    },
                ),
                Kind::Continuation => self.read_continuation(head, payload),
                Kind::Unknown => (self, Ok(None)),
            }
        }
    }
}

/// A result with the frame taken by its view.
pub open spec fn decoded_view(r: Result<Option<Frame>, FrameError>) -> Decoded {
    match r {
        Ok(Some(f)) => Ok(Some(f@)),
        Ok(None) => Ok(None),
        Err(e) => Err(e),
    }
}

impl Codec {
    /// What decides how bytes are read.
    pub open spec fn decoder_view(self) -> DecoderView {
        DecoderView {
            table: self.decoder_hpack.table@,
            table_limit: self.decoder_hpack.max_size_limit as nat,
            max_header_list_size: self.decoder_max_header_list_size as nat,
            max_header_continuations: self.decoder_max_header_continuations as nat,
            partial: match self.partial {
                Some(p) => Some(p@),
                None => None,
            },
        }
    }

    pub open spec fn wf(self) -> bool {
        &&& self.decoder_view().wf()
        &&& self.encoder_hpack.wf()
        &&& self.encoder_max_frame_size <= frame::MAX_MAX_FRAME_SIZE
        &&& self.decoder_hpack.wf()
        &&& self.decoder.builder.length_field_len == 3
        &&& self.decoder.builder.length_adjustment == 9
        &&& self.decoder.builder.num_skip == Some(0usize)
        &&& self.decoder.builder.max_frame_len <= frame::MAX_MAX_FRAME_SIZE
        &&& self.decoder.state matches DecodeState::Data(n) ==> n >= HEADER_LEN
    }

    /// Nothing has been read or written, and all limits are the default ones.
    pub open spec fn is_new(self) -> bool {
        &&& self.encoder_max_frame_size == frame::DEFAULT_MAX_FRAME_SIZE
        &&& self.encoder_hpack.size_update is None
        &&& self.encoder_hpack.table@ == (TableView {
            entries: Seq::empty(),
            max_size: frame::DEFAULT_SETTINGS_HEADER_TABLE_SIZE as nat,
        })
        &&& self.decoder.builder.max_frame_len == frame::DEFAULT_MAX_FRAME_SIZE
        &&& self.decoder.state == DecodeState::Head
        &&& self.decoder_view() == (DecoderView {
            table: TableView {
                entries: Seq::empty(),
                max_size: frame::DEFAULT_SETTINGS_HEADER_TABLE_SIZE as nat,
            },
            table_limit: frame::DEFAULT_SETTINGS_HEADER_TABLE_SIZE as nat,
            max_header_list_size: consts::DEFAULT_SETTINGS_MAX_HEADER_LIST_SIZE as nat,
            max_header_continuations: consts::DEFAULT_MAX_COUNTINUATIONS as nat,
            partial: None,
        })
    }

    /// Returns a new `Codec` with the default max frame size
    pub fn new() -> (r: Codec)
        ensures
            r.wf(),
            r.is_new(),
    {
        // Delimit the frames
        let mut builder = Builder::new();
        builder.length_field_length(3).length_adjustment(9).max_frame_length(
            frame::DEFAULT_MAX_FRAME_SIZE as usize,
        ).num_skip(0);  // Don't skip the header

        Codec {
            decoder: builder.new_codec(),
            decoder_hpack: Decoder::new(frame::DEFAULT_SETTINGS_HEADER_TABLE_SIZE),
            decoder_max_header_list_size: consts::DEFAULT_SETTINGS_MAX_HEADER_LIST_SIZE as usize,
            decoder_max_header_continuations: consts::DEFAULT_MAX_COUNTINUATIONS,
            partial: None,
            encoder_hpack: Encoder::default(),
            encoder_max_frame_size: frame::DEFAULT_MAX_FRAME_SIZE,
        }
    }

    /// Updates the max received frame size.
    ///
    /// The change takes effect the next time a frame is decoded. In other
    /// words, if a frame is currently in process of being decoded with a frame
    /// size greater than `val` but less than the max frame size in effect
    /// before calling this function, then the frame will be allowed.
    pub fn set_max_recv_frame_size(&mut self, val: usize)
        requires
            old(self).wf(),
            frame::DEFAULT_MAX_FRAME_SIZE <= val <= frame::MAX_MAX_FRAME_SIZE,
        ensures
            final(self).wf(),
            *final(self) == (Codec {
                decoder: LengthDelimitedCodec {
                    builder: Builder { max_frame_len: val, ..old(self).decoder.builder },
                    ..old(self).decoder
                },
                ..*old(self)
            }),
    {
        self.decoder.set_max_frame_length(val);
    }

    /// Updates the max received frame size.
    pub fn set_recv_frame_size(&mut self, val: usize)
        requires
            old(self).wf(),
            frame::DEFAULT_MAX_FRAME_SIZE <= val <= frame::MAX_MAX_FRAME_SIZE,
        ensures
            final(self).wf(),
            *final(self) == (Codec {
                decoder: LengthDelimitedCodec {
                    builder: Builder { max_frame_len: val, ..old(self).decoder.builder },
                    ..old(self).decoder
                },
                ..*old(self)
            }),
    {
        self.set_max_recv_frame_size(val);
    }

    /// The max received frame size.
    pub fn recv_frame_size(&self) -> (r: usize)
        ensures
            r == self.decoder.builder.max_frame_len,
    {
        self.decoder.max_frame_length()
    }

    /// Set the peer's max frame size.
    pub fn set_max_send_frame_size(&mut self, val: usize)
        requires
            old(self).wf(),
            val <= frame::MAX_MAX_FRAME_SIZE,
        ensures
            final(self).wf(),
            *final(self) == (Codec { encoder_max_frame_size: val as u32, ..*old(self) }),
    {
        self.encoder_max_frame_size = val as frame::FrameSize;
    }

    /// The peer's max frame size.
    pub fn send_frame_size(&self) -> (r: frame::FrameSize)
        ensures
            r == self.encoder_max_frame_size,
    {
        self.encoder_max_frame_size
    }

    /// Set the peer's header table size size.
    pub fn set_send_header_table_size(&mut self, val: usize)
        requires
            old(self).wf(),
        ensures
            final(self).wf(),
            final(self).encoder_hpack.table == old(self).encoder_hpack.table,
            final(self).encoder_hpack.size_update == crate::hpack::encoder::merged(
                old(self).encoder_hpack.size_update,
                old(self).encoder_hpack.table@.max_size,
                val,
            ),
            *final(self) == (Codec { encoder_hpack: final(self).encoder_hpack, ..*old(self) }),
    {
        self.encoder_hpack.update_max_size(val);
    }

    /// Set the max header list size that can be received.
    pub fn set_max_recv_header_list_size(&mut self, val: usize)
        requires
            old(self).wf(),
        ensures
            final(self).wf(),
            *final(self) == (Codec { decoder_max_header_list_size: val, ..*old(self) }),
    {
        self.decoder_max_header_list_size = val;
    }

    /// Set the max number of CONTINUATION frames of a header block.
    pub fn set_max_header_continuations(&mut self, val: usize)
        requires
            old(self).wf(),
        ensures
            final(self).wf(),
            *final(self) == (Codec { decoder_max_header_continuations: val, ..*old(self) }),
    {
        self.decoder_max_header_continuations = val;
    }
}

// ===== Decoding =====

impl Codec {
    /// Everything but the decoder's state is as it was.
    pub open spec fn same_settings(self, other: Codec) -> bool {
        &&& self.encoder_hpack == other.encoder_hpack
        &&& self.encoder_max_frame_size == other.encoder_max_frame_size
        &&& self.decoder.builder == other.decoder.builder
        &&& self.decoder_max_header_list_size == other.decoder_max_header_list_size
        &&& self.decoder_max_header_continuations == other.decoder_max_header_continuations
    }

    /// Reads the headers of a complete block.
    fn finish_headers(&mut self, headers: Headers, block: &[u8], continued: bool) -> (r: Result<
        Option<Frame>,
        FrameError,
    >)
        requires
            old(self).wf(),
        ensures
            final(self).wf(),
            final(self).same_settings(*old(self)),
            final(self).decoder.state == old(self).decoder.state,
            (final(self).decoder_view(), decoded_view(r)) == old(self).decoder_view().finish(
                headers@,
                block@,
                continued,
            ),
    {
        proof {
            reveal(DecoderView::finish);
        }
        let mut headers = headers;
        match headers.load_hpack(block, &mut self.decoder_hpack) {
            Ok(_) => Ok(Some(Frame::Headers(headers))),
            Err(e) => {
                let malformed: bool = match e {
                    FrameError::MalformedMessage => true,
                    _ => false,
                };
                if continued && malformed {
                    Err(FrameError::Continuation(ContinuationError::Malformed))
                } else {
                    Err(e)
                }
            },
        }
    }

    /// Reads a HEADERS frame.
    fn decode_headers(&mut self, head: Head, payload: Vec<u8>) -> (r: Result<
        Option<Frame>,
        FrameError,
    >)
        requires
            old(self).wf(),
            old(self).partial is None,
        ensures
            final(self).wf(),
            final(self).same_settings(*old(self)),
            final(self).decoder.state == old(self).decoder.state,
            (final(self).decoder_view(), decoded_view(r)) == old(self).decoder_view().read_headers(
                head,
                payload@,
            ),
    {
        let mut payload = payload;
        // Parse the header frame w/o parsing the payload
        match Headers::load(head, &mut payload) {
            Err(e) => Err(e),
            Ok(headers) => if headers.is_end_headers() {
                // Load the HPACK encoded headers
                self.finish_headers(headers, payload.as_slice(), false)
            } else {
                // Defer returning the frame
                self.partial = Some(Partial { frame: headers, buf: payload, continuations: 0 });
                Ok(None)
            },
        }
    }

    /// Reads a CONTINUATION frame.
    fn decode_continuation(&mut self, head: Head, payload: &[u8]) -> (r: Result<
        Option<Frame>,
        FrameError,
    >)
        requires
            old(self).wf(),
        ensures
            final(self).wf(),
            final(self).same_settings(*old(self)),
            final(self).decoder.state == old(self).decoder.state,
            (final(self).decoder_view(), decoded_view(r))
                == old(self).decoder_view().read_continuation(head, payload@),
    {
        let is_end_headers: bool = (head.flag() & END_HEADERS) == END_HEADERS;

        let partial = match self.partial.take() {
            Some(partial) => partial,
            None => return Err(FrameError::Continuation(ContinuationError::Unexpected)),
        };
        let ghost before = partial@;

        // The stream identifiers must match
        if partial.stream_id() != head.stream_id() {
            return Err(FrameError::Continuation(ContinuationError::UnknownStreamId));
        }
        if partial.continuations >= self.decoder_max_header_continuations {
            return Err(FrameError::Continuation(ContinuationError::MaxContinuations));
        }
        // A header block may be spread over many frames, and must not make the
        // buffer grow without bounds.
        if partial.buf.len() as u128 + payload.len() as u128
            > self.decoder_max_header_list_size as u128 {
            return Err(FrameError::Continuation(ContinuationError::MaxLeftoverSize));
        }
        // Extend the buf
        let mut buf = partial.buf;
        buf.extend_from_slice(payload);
        assert(buf@ =~= before.buf + payload@);

        if is_end_headers {
            self.finish_headers(partial.frame, buf.as_slice(), true)
        } else {
            self.partial = Some(
                Partial {
                    frame: partial.frame,
                    buf,
                    continuations: partial.continuations + 1,
                },
            );
            Ok(None)
        }
    }

    /// Reads a complete frame.
    fn decode_frame(&mut self, bytes: Vec<u8>) -> (r: Result<Option<Frame>, FrameError>)
        requires
            old(self).wf(),
            bytes@.len() >= HEADER_LEN,
        ensures
            final(self).wf(),
            final(self).same_settings(*old(self)),
            final(self).decoder.state == old(self).decoder.state,
            (final(self).decoder_view(), decoded_view(r)) == old(self).decoder_view().read(bytes@),
            r matches Ok(Some(f)) ==> f@.valid(),
    {
        proof {
            reveal(DecoderView::read);
            self.decoder_view().read_valid(bytes@);
        }
        // Parse the head
        let head = Head::parse(bytes.as_slice());
        let kind = head.kind();

        let is_continuation: bool = match kind {
            Kind::Continuation => true,
            _ => false,
        };
        if self.partial.is_some() && !is_continuation {
            return Err(FrameError::Continuation(ContinuationError::Expected));
        }
        let len: usize = bytes.len();
        let payload = &bytes.as_slice()[HEADER_LEN..len];
        assert(payload@ =~= bytes@.skip(HEADER_LEN as int));

        match kind {
            Kind::Settings => match Settings::load(head, payload) {
                Ok(v) => Ok(Some(Frame::Settings(v))),
                Err(e) => Err(e),
            },
            Kind::Ping => match Ping::load(head, payload) {
                Ok(v) => Ok(Some(Frame::Ping(v))),
                Err(e) => Err(e),
            },
            Kind::WindowUpdate => match WindowUpdate::load(head, payload) {
                Ok(v) => Ok(Some(Frame::WindowUpdate(v))),
                Err(e) => Err(e),
            },
            Kind::Data => match Data::load(head, payload) {
                Ok(v) => Ok(Some(Frame::Data(v))),
                Err(e) => Err(e),
            },
            Kind::Headers => self.decode_headers(head, util::copy(payload)),
            Kind::Reset => match Reset::load(head, payload) {
                Ok(v) => Ok(Some(Frame::Reset(v))),
                Err(e) => Err(e),
            },
            Kind::GoAway => match GoAway::load(payload) {
                Ok(v) => Ok(Some(Frame::GoAway(v))),
                Err(e) => Err(e),
            },
            Kind::PushPromise => Err(FrameError::UnexpectedPushPromise),
            Kind::Priority => {
                if head.stream_id().is_zero() {
                    // Invalid stream identifier
                    return Err(FrameError::InvalidStreamId);
                }
                match Priority::load(head, payload) {
                    Ok(v) => Ok(Some(Frame::Priority(v))),
                    // A stream cannot depend on itself. An endpoint MUST
                    // treat this as a stream error (Section 5.4.2) of type
                    // `PROTOCOL_ERROR`.
                    Err(e) => Err(e),
                }
            },
            Kind::Continuation => self.decode_continuation(head, payload),
            // Unknown frames are ignored
            Kind::Unknown => Ok(None),
        }
    }

    /// Decoding from `src` leaves the codec `next` and the bytes `left`, and gives `r`.
    pub open spec fn decodes(self, src: Seq<u8>, next: Codec, left: Seq<u8>, r: Decoded) -> bool {
        &&& next.same_settings(self)
        &&& match self.decoder.after_head(src) {
            Err(_) => {
                &&& r == Err::<Option<FrameView>, FrameError>(FrameError::MaxFrameSize)
                &&& left == src
                &&& next.decoder.state == self.decoder.state
                &&& next.decoder_view() == self.decoder_view()
            },
            Ok(None) => {
                &&& r == Ok::<Option<FrameView>, FrameError>(None)
                &&& left == src
                &&& next.decoder.state == self.decoder.state
                &&& next.decoder_view() == self.decoder_view()
            },
            Ok(Some((n, rest))) => if rest.len() < n {
                &&& r == Ok::<Option<FrameView>, FrameError>(None)
                &&& left == rest
                &&& next.decoder.state == DecodeState::Data(n as usize)
                &&& next.decoder_view() == self.decoder_view()
            } else {
                &&& (next.decoder_view(), r) == self.decoder_view().read(rest.take(n as int))
                &&& left == rest.skip(n as int)
                &&& next.decoder.state == DecodeState::Head
            },
        }
    }

    /// Decodes the next frame at the front of `src`, as soon as all of it is there.
    ///
    /// Frames that are longer than the max received frame size are refused.
    pub fn decode(&mut self, src: &mut Vec<u8>) -> (r: Result<Option<Frame>, FrameError>)
        requires
            old(self).wf(),
        ensures
            final(self).wf(),
            r matches Ok(Some(f)) ==> f@.valid(),
            old(self).decodes(old(src)@, *final(self), final(src)@, decoded_view(r)),
    {
        match self.decoder.decode(src) {
            Err(e) => Err(FrameError::from(e)),
            Ok(None) => Ok(None),
            Ok(Some(bytes)) => self.decode_frame(bytes),
        }
    }
}

// ===== Encoding =====

impl FrameView {
    /// A frame that can be written. Headers are complete and have a status of three
    /// digits, if any, and PRIORITY frames are never written.
    pub open spec fn writable(self, max: nat) -> bool {
        match self {
            FrameView::Priority(_) => false,
            FrameView::GoAway(v) => 8 + v.data.len() <= usize::MAX,
            FrameView::Headers(v) => {
                &&& v.flags.end_headers()
                &&& v.block.pseudo.status matches Some(s) ==> 100 <= s <= 999
                &&& max > 0
            },
            _ => true,
        }
    }

    /// The bytes of a frame that always takes the same ones.
    pub open spec fn bytes(self) -> Seq<u8> {
        match self {
            FrameView::Data(v) => v.bytes(),
            FrameView::Settings(v) => v.bytes(),
            FrameView::GoAway(v) => v.bytes(),
            FrameView::Ping(v) => v.bytes(),
            FrameView::WindowUpdate(v) => v.bytes(),
            FrameView::Reset(v) => v.bytes(),
            _ => Seq::empty(),
        }
    }
}

impl Frame {
    /// Whether a frame can be written by a codec with this max frame size.
    pub fn is_writable(&self, max: usize) -> (r: bool)
        ensures
            r == self@.writable(max as nat),
    {
        match self {
            Frame::Priority(_) => false,
            Frame::GoAway(v) => v.data().len() <= usize::MAX - 8,
            Frame::Headers(v) => {
                let status: bool = match v.pseudo().status {
                    Some(s) => 100 <= s && s <= 999,
                    None => true,
                };
                v.is_end_headers() && status && max > 0
            },
            _ => true,
        }
    }
}

impl Codec {
    /// Encoding a frame behind `buf` leaves the codec `next` and the bytes `after`,
    /// and gives `r`.
    pub open spec fn encodes(
        self,
        item: FrameView,
        buf: Seq<u8>,
        next: Codec,
        after: Seq<u8>,
        r: Result<(), EncoderError>,
    ) -> bool {
        match item {
            FrameView::Data(v) if v.data.len() > self.encoder_max_frame_size => {
                &&& r == Err::<(), EncoderError>(EncoderError::MaxSizeExceeded)
                &&& after == buf
                &&& next == self
            },
            FrameView::Headers(v) => {
                &&& r is Ok
                &&& exists|entries: Seq<(Seq<u8>, Seq<u8>, bool)>| #[trigger]
                    http::lists(v.block.fields, entries) && headers::all_valid(entries)
                        && self.encodes_list(v, entries, buf, next, after)
            },
            _ => {
                &&& r is Ok
                &&& after == buf + item.bytes()
                &&& next == self
            },
        }
    }

    /// Encoding headers, with their fields in this order, behind `buf` leaves the
    /// codec `next` and the bytes `after`.
    pub open spec fn encodes_list(
        self,
        hdrs: HeadersView,
        entries: Seq<(Seq<u8>, Seq<u8>, bool)>,
        buf: Seq<u8>,
        next: Codec,
        after: Seq<u8>,
    ) -> bool {
        let block = headers::coded_block(
            self.encoder_hpack,
            headers::header_list(hdrs.block.pseudo, entries),
        );
        &&& next == (Codec { encoder_hpack: next.encoder_hpack, ..self })
        &&& next.encoder_hpack.size_update is None
        &&& next.encoder_hpack.table@ == block.0
        &&& after == buf + headers::block_frames(
            hdrs.head(),
            block.1,
            self.encoder_max_frame_size as nat,
        )
    }

    /// Encodes a frame.
    ///
    /// A DATA frame that is longer than the peer accepts is refused. Headers are
    /// split into as many frames as it takes.
    pub fn encode(&mut self, item: Frame, buf: &mut Vec<u8>) -> (r: Result<(), EncoderError>)
        requires
            old(self).wf(),
            item@.writable(old(self).encoder_max_frame_size as nat),
        ensures
            final(self).wf(),
            old(self).encodes(item@, old(buf)@, *final(self), final(buf)@, r),
    {
        match item {
            Frame::Data(v) => {
                // Ensure that the payload is not greater than the max frame.
                if v.payload().len() > self.encoder_max_frame_size as usize {
                    return Err(EncoderError::MaxSizeExceeded);
                }
                v.encode(buf);
            },
            Frame::Headers(v) => {
                v.encode(&mut self.encoder_hpack, buf, self.encoder_max_frame_size as usize);
            },
            Frame::Settings(v) => {
                v.encode(buf);
            },
            Frame::GoAway(v) => {
                v.encode(buf);
            },
            Frame::Ping(v) => {
                v.encode(buf);
            },
            Frame::WindowUpdate(v) => {
                v.encode(buf);
            },
            Frame::Priority(_) => {},
            Frame::Reset(v) => {
                v.encode(buf);
            },
        }
        Ok(())
    }
}

impl Default for Codec {
    fn default() -> (r: Codec)
        ensures
            r.wf(),
            r.is_new(),
    {
        Codec::new()
    }
}

} // verus!
