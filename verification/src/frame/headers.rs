use ntex_http::HeaderMap;
use vstd::prelude::*;

use crate::frame::pseudo::PseudoView;
use crate::frame::{
    util, FrameError, Head, Kind, Protocol, PseudoHeaders, StreamDependency, StreamId,
};
use crate::hpack::decoder;
use crate::hpack::header::{same_bytes, Header, HeaderView};
use crate::hpack::{encoder, Decoder, Encoder};
use crate::http;
use crate::http::HeaderValue;

verus! {

/// Header frame
///
/// This could be either a request or a response.
pub struct Headers {
    /// The ID of the stream with which this frame is associated.
    pub stream_id: StreamId,
    /// The header block fragment
    pub header_block: HeaderBlock,
    /// The associated flags
    pub flags: HeadersFlag,
}

#[derive(Debug, Copy, Clone, Eq, PartialEq, Structural)]
pub struct HeadersFlag(pub u8);

pub struct HeaderBlock {
    /// The decoded header fields
    pub fields: HeaderMap,
    /// Pseudo headers, these are broken out as they must be sent as part of the
    /// headers frame.
    pub pseudo: PseudoHeaders,
}

/// The names and values of header fields.
pub type Fields = Map<Seq<u8>, Seq<(Seq<u8>, bool)>>;

/// What a HEADERS frame says.
#[verifier::ext_equal]
pub struct HeadersView {
    pub stream_id: StreamId,
    pub flags: HeadersFlag,
    pub block: BlockView,
}

/// What a header block says.
#[verifier::ext_equal]
pub struct BlockView {
    pub pseudo: PseudoView,
    pub fields: Fields,
}

pub const END_STREAM: u8 = 0x1;

pub const END_HEADERS: u8 = 0x4;

pub const PADDED: u8 = 0x8;

pub const PRIORITY: u8 = 0x20;

pub const ALL: u8 = 0x2d;

impl View for HeaderBlock {
    type V = BlockView;

    open spec fn view(&self) -> BlockView {
        BlockView { pseudo: self.pseudo@, fields: http::header_fields(self.fields) }
    }
}

impl View for Headers {
    type V = HeadersView;

    open spec fn view(&self) -> HeadersView {
        HeadersView { stream_id: self.stream_id, flags: self.flags, block: self.header_block@ }
    }
}

// ===== impl HeadersFlag =====

impl HeadersFlag {
    pub open spec fn end_stream(self) -> bool {
        self.0 & END_STREAM == END_STREAM
    }

    pub open spec fn end_headers(self) -> bool {
        self.0 & END_HEADERS == END_HEADERS
    }

    pub open spec fn padded(self) -> bool {
        self.0 & PADDED == PADDED
    }

    pub open spec fn priority(self) -> bool {
        self.0 & PRIORITY == PRIORITY
    }

    pub fn empty() -> (r: HeadersFlag)
        ensures
            r == HeadersFlag(0),
    {
        HeadersFlag(0)
    }

    pub fn load(bits: u8) -> (r: HeadersFlag)
        ensures
            r == HeadersFlag(bits & ALL),
    {
        HeadersFlag(bits & ALL)
    }

    pub fn is_end_stream(&self) -> (r: bool)
        ensures
            r == self.end_stream(),
    {
        self.0 & END_STREAM == END_STREAM
    }

    pub fn set_end_stream(&mut self)
        ensures
            *final(self) == HeadersFlag(old(self).0 | END_STREAM),
            final(self).end_stream(),
    {
        let ghost f = self.0;
        self.0 = self.0 | END_STREAM;
        assert((f | END_STREAM) & END_STREAM == END_STREAM) by (bit_vector);
    }

    pub fn is_end_headers(&self) -> (r: bool)
        ensures
            r == self.end_headers(),
    {
        self.0 & END_HEADERS == END_HEADERS
    }

    pub fn set_end_headers(&mut self)
        ensures
            *final(self) == HeadersFlag(old(self).0 | END_HEADERS),
            final(self).end_headers(),
    {
        let ghost f = self.0;
        self.0 = self.0 | END_HEADERS;
        assert((f | END_HEADERS) & END_HEADERS == END_HEADERS) by (bit_vector);
    }

    pub fn is_padded(&self) -> (r: bool)
        ensures
            r == self.padded(),
    {
        self.0 & PADDED == PADDED
    }

    pub fn is_priority(&self) -> (r: bool)
        ensures
            r == self.priority(),
    {
        self.0 & PRIORITY == PRIORITY
    }
}

impl Default for HeadersFlag {
    /// Returns a `HeadersFlag` value with `END_HEADERS` set.
    fn default() -> (r: HeadersFlag)
        ensures
            r == HeadersFlag(END_HEADERS),
    {
        HeadersFlag(END_HEADERS)
    }
}

// ===== impl Headers =====

impl HeadersView {
    /// The flags of a frame that holds its whole block.
    pub open spec fn new_flags(eof: bool) -> HeadersFlag {
        HeadersFlag(
            if eof {
                5
            } else {
                4
            },
        )
    }

    pub open spec fn head(self) -> Head {
        Head { kind: Kind::Headers, flag: self.flags.0, stream_id: self.stream_id }
    }

    /// The header block fragment in the payload of a HEADERS frame: the payload
    /// without pad length, priority and padding.
    pub open spec fn fragment(head: Head, payload: Seq<u8>) -> Result<Seq<u8>, FrameError> {
        let flags = HeadersFlag(head.flag);
        let pad = if flags.padded() {
            payload[0] as int
        } else {
            0
        };
        let p1 = if flags.padded() {
            payload.skip(1)
        } else {
            payload
        };
        let p2 = if flags.priority() {
            p1.skip(5)
        } else {
            p1
        };
        if head.stream_id.0 == 0 {
            Err(FrameError::InvalidStreamId)
        } else if flags.padded() && payload.len() == 0 {
            Err(FrameError::MalformedMessage)
        } else if flags.priority() && p1.len() < 5 {
            Err(FrameError::MalformedMessage)
        } else if flags.priority() && StreamId::parsed(p1) == head.stream_id {
            Err(FrameError::InvalidDependencyId)
        } else if pad > p2.len() {
            Err(FrameError::TooMuchPadding)
        } else {
            Ok(p2.take(p2.len() - pad))
        }
    }
}

impl Headers {
    /// Create a new HEADERS frame
    pub fn new(stream_id: StreamId, pseudo: PseudoHeaders, fields: HeaderMap, eof: bool) -> (r:
        Headers)
        ensures
            r@ == (HeadersView {
                stream_id,
                flags: HeadersView::new_flags(eof),
                block: BlockView { pseudo: pseudo@, fields: http::header_fields(fields) },
            }),
    {
        let mut flags = HeadersFlag::default();
        if eof {
            flags.set_end_stream();
        }
        assert(4u8 | 1u8 == 5u8) by (bit_vector);
        Headers { flags, stream_id, header_block: HeaderBlock { fields, pseudo } }
    }

    pub fn trailers(stream_id: StreamId, fields: HeaderMap) -> (r: Headers)
        ensures
            r@ == (HeadersView {
                stream_id,
                flags: HeadersView::new_flags(true),
                block: BlockView {
                    pseudo: PseudoView::empty(),
                    fields: http::header_fields(fields),
                },
            }),
    {
        Headers::new(stream_id, PseudoHeaders::default(), fields, true)
    }

    /// Loads the header frame but doesn't actually do HPACK decoding.
    ///
    /// HPACK decoding is done in the `load_hpack` step. What is left in `src` is
    /// the header block fragment.
    pub fn load(head: Head, src: &mut Vec<u8>) -> (r: Result<Headers, FrameError>)
        ensures
            match HeadersView::fragment(head, old(src)@) {
                Err(e) => r is Err && r->Err_0 == e && final(src)@ == old(src)@,
                Ok(block) => {
                    &&& r is Ok
                    &&& final(src)@ == block
                    &&& r->Ok_0@ == (HeadersView {
                        stream_id: head.stream_id,
                        flags: HeadersFlag(head.flag),
                        block: BlockView {
                            pseudo: PseudoView::empty(),
                            fields: http::no_fields(),
                        },
                    })
                },
            },
    {
        let flags = HeadersFlag(head.flag());

        if head.stream_id().is_zero() {
            return Err(FrameError::InvalidStreamId);
        }
        let len: usize = src.len();
        let mut start: usize = 0;

        // Read the padding length
        let mut pad: usize = 0;
        if flags.is_padded() {
            if len == 0 {
                return Err(FrameError::MalformedMessage);
            }
            pad = src[0] as usize;
            start = 1;
        }
        let ghost p1 = src@.skip(start as int);
        assert(src@.skip(0) =~= src@);

        // Read the stream dependency
        if flags.is_priority() {
            if len - start < 5 {
                return Err(FrameError::MalformedMessage);
            }
            let part = &src.as_slice()[start..start + 5];
            assert(part@ =~= p1.take(5));
            assert(crate::frame::wire::be32(part@) == crate::frame::wire::be32(p1));
            let stream_dep = match StreamDependency::load(part) {
                Ok(dep) => dep,
                Err(e) => return Err(e),
            };

            if stream_dep.dependency_id() == head.stream_id() {
                return Err(FrameError::InvalidDependencyId);
            }
            assert(p1.skip(5) =~= src@.skip(start + 5));
            // Drop the next 5 bytes
            start = start + 5;
        }
        if pad > len - start {
            return Err(FrameError::TooMuchPadding);
        }
        let block = util::copy(&src.as_slice()[start..len - pad]);
        assert(block@ =~= src@.skip(start as int).take(len - pad - start));
        *src = block;

        Ok(
            Headers {
                flags,
                stream_id: head.stream_id(),
                header_block: HeaderBlock {
                    fields: HeaderMap::new(),
                    pseudo: PseudoHeaders::default(),
                },
            },
        )
    }

    /// Decompresses a complete header block.
    pub fn load_hpack(&mut self, src: &[u8], decoder: &mut Decoder) -> (r: Result<(), FrameError>)
        requires
            old(decoder).wf(),
        ensures
            final(decoder).wf(),
            final(self).stream_id == old(self).stream_id,
            final(self).flags == old(self).flags,
            ({
                let outcome = decoder::decode_block(
                    old(decoder).table@,
                    old(decoder).max_size_limit as nat,
                    true,
                    src@,
                );
                let loaded = LoadState::start(old(self)@.block).all(outcome.headers);
                &&& final(decoder).table@ == outcome.table
                &&& final(decoder).max_size_limit == old(decoder).max_size_limit
                &&& final(self)@.block == loaded.block
                &&& r == load_result(outcome.error, loaded.malformed)
            }),
    {
        self.header_block.load(src, decoder)
    }

    pub fn stream_id(&self) -> (r: StreamId)
        ensures
            r == self@.stream_id,
    {
        self.stream_id
    }

    pub fn is_end_headers(&self) -> (r: bool)
        ensures
            r == self@.flags.end_headers(),
    {
        self.flags.is_end_headers()
    }

    pub fn set_end_headers(&mut self)
        ensures
            final(self)@ == (HeadersView {
                flags: HeadersFlag(old(self).flags.0 | END_HEADERS),
                ..old(self)@
            }),
    {
        self.flags.set_end_headers();
    }

    pub fn is_end_stream(&self) -> (r: bool)
        ensures
            r == self@.flags.end_stream(),
    {
        self.flags.is_end_stream()
    }

    pub fn set_end_stream(&mut self)
        ensures
            final(self)@ == (HeadersView {
                flags: HeadersFlag(old(self).flags.0 | END_STREAM),
                ..old(self)@
            }),
    {
        self.flags.set_end_stream();
    }

    pub fn into_parts(self) -> (r: (PseudoHeaders, HeaderMap))
        ensures
            r.0@ == self@.block.pseudo,
            http::header_fields(r.1) == self@.block.fields,
    {
        (self.header_block.pseudo, self.header_block.fields)
    }

    pub fn fields(&self) -> (r: &HeaderMap)
        ensures
            http::header_fields(*r) == self@.block.fields,
    {
        &self.header_block.fields
    }

    pub fn pseudo(&self) -> (r: &PseudoHeaders)
        ensures
            r@ == self@.block.pseudo,
    {
        &self.header_block.pseudo
    }

    pub fn into_fields(self) -> (r: HeaderMap)
        ensures
            http::header_fields(r) == self@.block.fields,
    {
        self.header_block.fields
    }

    /// Writes the frame, and as many CONTINUATION frames as it takes.
    ///
    /// The order of the names in the header map is not defined, so the block is
    /// that of some list of its fields.
    pub fn encode(self, encoder: &mut Encoder, dst: &mut Vec<u8>, max_size: usize)
        requires
            old(encoder).wf(),
            0 < max_size < 0x100_0000,
            self@.flags.end_headers(),
            self@.block.pseudo.status matches Some(v) ==> 100 <= v <= 999,
        ensures
            final(encoder).wf(),
            final(encoder).size_update is None,
            exists|entries: Seq<(Seq<u8>, Seq<u8>, bool)>| #[trigger]
                http::lists(self@.block.fields, entries) && all_valid(entries) && {
                    let block = coded_block(
                        *old(encoder),
                        header_list(self@.block.pseudo, entries),
                    );
                    &&& final(encoder).table@ == block.0
                    &&& final(dst)@ == old(dst)@ + block_frames(
                        self@.head(),
                        block.1,
                        max_size as nat,
                    )
                },
    {
        // Get the HEADERS frame head
        let head = self.head();

        self.header_block.encode(encoder, &head, dst, max_size)
    }

    pub fn head(&self) -> (r: Head)
        ensures
            r == self@.head(),
    {
        Head::new(Kind::Headers, self.flags.0, self.stream_id)
    }
}

// ===== Loading =====

/// Header fields that belong to a connection and may not be sent over HTTP/2.
pub open spec fn is_connection_field(name: Seq<u8>) -> bool {
    ||| name == http::text_bytes("connection"@)
    ||| name == http::text_bytes("transfer-encoding"@)
    ||| name == http::text_bytes("upgrade"@)
    ||| name == http::text_bytes("keep-alive"@)
    ||| name == http::text_bytes("proxy-connection"@)
}

/// A header block while its headers are taken in.
#[verifier::ext_equal]
pub struct LoadState {
    pub block: BlockView,
    /// A regular field was taken in: no pseudo-header may follow.
    pub regular: bool,
    pub malformed: bool,
}

impl LoadState {
    pub open spec fn start(block: BlockView) -> LoadState {
        LoadState { block, regular: block.fields != http::no_fields(), malformed: false }
    }

    pub open spec fn bad(self) -> LoadState {
        LoadState { malformed: true, ..self }
    }

    pub open spec fn with_pseudo(self, pseudo: PseudoView) -> LoadState {
        LoadState { block: BlockView { pseudo, ..self.block }, ..self }
    }

    /// Takes in one header. A pseudo-header may come once, and only in front of
    /// the regular fields.
    pub open spec fn one(self, h: HeaderView<Seq<u8>>) -> LoadState {
        let p = self.block.pseudo;
        match h {
            HeaderView::Field { name, value, sensitive } => if is_connection_field(name) || (name
                == http::text_bytes("te"@) && value != http::text_bytes("trailers"@)) {
                self.bad()
            } else {
                LoadState {
                    block: BlockView {
                        fields: http::appended(self.block.fields, name, value, sensitive),
                        ..self.block
                    },
                    regular: true,
                    ..self
                }
            },
            HeaderView::Authority(v) => if self.regular || p.authority is Some {
                self.bad()
            } else {
                self.with_pseudo(PseudoView { authority: Some(v), ..p })
            },
            HeaderView::Method(v) => if self.regular || p.method is Some {
                self.bad()
            } else {
                self.with_pseudo(PseudoView { method: Some(v), ..p })
            },
            HeaderView::Scheme(v) => if self.regular || p.scheme is Some {
                self.bad()
            } else {
                self.with_pseudo(PseudoView { scheme: Some(v), ..p })
            },
            HeaderView::Path(v) => if self.regular || p.path is Some {
                self.bad()
            } else {
                self.with_pseudo(PseudoView { path: Some(v), ..p })
            },
            HeaderView::Protocol(v) => if self.regular || p.protocol is Some {
                self.bad()
            } else {
                self.with_pseudo(PseudoView { protocol: Some(v), ..p })
            },
            HeaderView::Status(v) => if self.regular || p.status is Some {
                self.bad()
            } else {
                self.with_pseudo(PseudoView { status: Some(v), ..p })
            },
        }
    }

    /// Takes in headers, first to last.
    pub open spec fn all(self, headers: Seq<HeaderView<Seq<u8>>>) -> LoadState
        decreases headers.len(),
    {
        if headers.len() == 0 {
            self
        } else {
            self.all(headers.drop_last()).one(headers.last())
        }
    }
}

/// Fields that are taken in have values.
pub proof fn load_valued(st: LoadState, headers: Seq<HeaderView<Seq<u8>>>)
    requires
        http::valued(st.block.fields),
    ensures
        http::valued(st.all(headers).block.fields),
    decreases headers.len(),
{
    if headers.len() > 0 {
        load_valued(st, headers.drop_last());
    }
}

/// What loading a header block returns.
pub open spec fn load_result(
    error: Option<crate::hpack::DecoderError>,
    malformed: bool,
) -> Result<(), FrameError> {
    match error {
        Some(e) => Err(FrameError::Hpack(e)),
        None => if malformed {
            Err(FrameError::MalformedMessage)
        } else {
            Ok(())
        },
    }
}

impl HeaderBlock {
    /// Takes in a pseudo-header or a field, and tells whether that made the block
    /// malformed.
    fn load_one(&mut self, header: Header, regular: &mut bool) -> (malformed: bool)
        requires
            header@.wf(),
        ensures
            ({
                let st = LoadState { block: old(self)@, regular: *old(regular), malformed: false };
                st.one(header@) == (LoadState {
                    block: final(self)@,
                    regular: *final(regular),
                    malformed,
                })
            }),
    {
        match header {
            Header::Field { name, value } => {
                // Connection level header fields are not supported and must
                // result in a protocol error.
                if is_connection_name(name.as_slice()) {
                    true
                } else if same_bytes(name.as_slice(), "te".as_bytes()) && !same_bytes(
                    value.bytes.as_slice(),
                    "trailers".as_bytes(),
                ) {
                    true
                } else {
                    *regular = true;
                    http::map_append(&mut self.fields, name.as_slice(), &value);
                    false
                }
            },
            Header::Authority(v) => {
                if *regular || self.pseudo.authority.is_some() {
                    true
                } else {
                    self.pseudo.authority = Some(v);
                    false
                }
            },
            Header::Method(v) => {
                if *regular || self.pseudo.method.is_some() {
                    true
                } else {
                    self.pseudo.method = Some(v);
                    false
                }
            },
            Header::Scheme(v) => {
                if *regular || self.pseudo.scheme.is_some() {
                    true
                } else {
                    self.pseudo.scheme = Some(v);
                    false
                }
            },
            Header::Path(v) => {
                if *regular || self.pseudo.path.is_some() {
                    true
                } else {
                    self.pseudo.path = Some(v);
                    false
                }
            },
            Header::Protocol(v) => {
                if *regular || self.pseudo.protocol.is_some() {
                    true
                } else {
                    self.pseudo.protocol = Some(Protocol::new(v));
                    false
                }
            },
            Header::Status(v) => {
                if *regular || self.pseudo.status.is_some() {
                    true
                } else {
                    self.pseudo.status = Some(v);
                    false
                }
            },
        }
    }
}

/// Whether a field belongs to a connection.
fn is_connection_name(name: &[u8]) -> (r: bool)
    ensures
        r == is_connection_field(name@),
{
    same_bytes(name, "connection".as_bytes()) || same_bytes(name, "transfer-encoding".as_bytes())
        || same_bytes(name, "upgrade".as_bytes()) || same_bytes(name, "keep-alive".as_bytes())
        || same_bytes(name, "proxy-connection".as_bytes())
}

impl HeaderBlock {
    /// Decompresses a header block and takes its headers in.
    ///
    /// If the header frame is malformed, the headers are decoded all the same. A
    /// malformed header frame is a stream level error, but the hpack state is
    /// connection level, and in order to maintain correct state for other streams
    /// the hpack decoding process must complete.
    pub fn load(&mut self, src: &[u8], decoder: &mut Decoder) -> (r: Result<(), FrameError>)
        requires
            old(decoder).wf(),
        ensures
            final(decoder).wf(),
            ({
                let outcome = decoder::decode_block(
                    old(decoder).table@,
                    old(decoder).max_size_limit as nat,
                    true,
                    src@,
                );
                let loaded = LoadState::start(old(self)@).all(outcome.headers);
                &&& final(decoder).table@ == outcome.table
                &&& final(decoder).max_size_limit == old(decoder).max_size_limit
                &&& final(self)@ == loaded.block
                &&& r == load_result(outcome.error, loaded.malformed)
            }),
    {
        let mut regular: bool = !self.fields.is_empty();
        let mut malformed: bool = false;
        let ghost start = LoadState::start(self@);
        let (headers, res) = decoder.decode(src);
        let ghost views = decoder::headers_view(headers@);
        assert(views.take(0) =~= Seq::empty());
        for header in iter: headers
            invariant
                iter.seq() == headers@,
                views == decoder::headers_view(headers@),
                forall|i: int| 0 <= i < headers@.len() ==> (#[trigger] headers@[i])@.wf(),
                start.all(views.take(iter.index() as int)) == (LoadState {
                    block: self@,
                    regular,
                    malformed,
                }),
        {
            let ghost n = iter.index() as int;
            proof {
                assert(views.take(n + 1).drop_last() =~= views.take(n));
                assert(views.take(n + 1).last() == header@);
            }
            let bad = self.load_one(header, &mut regular);
            if bad {
                malformed = true;
            }
        }
        assert(views.take(views.len() as int) =~= views);
        match res {
            Err(e) => Err(FrameError::Hpack(e)),
            Ok(_) => if malformed {
                Err(FrameError::MalformedMessage)
            } else {
                Ok(())
            },
        }
    }
}

// ===== Encoding =====

/// Names and values that may stand in a header map.
pub open spec fn all_valid(entries: Seq<(Seq<u8>, Seq<u8>, bool)>) -> bool {
    forall|i: int|
        0 <= i < entries.len() ==> http::valid_name((#[trigger] entries[i]).0)
            && http::valid_value(entries[i].1)
}

/// The pseudo-headers in the order in which they are written.
pub open spec fn pseudo_list(p: PseudoView) -> Seq<HeaderView<Seq<u8>>> {
    opt_header(p.method, |v| HeaderView::Method(v)) + opt_header(
        p.scheme,
        |v| HeaderView::Scheme(v),
    ) + opt_header(p.authority, |v| HeaderView::Authority(v)) + opt_header(
        p.path,
        |v| HeaderView::Path(v),
    ) + opt_header(p.protocol, |v| HeaderView::Protocol(v)) + opt_header(
        p.status,
        |v| HeaderView::Status(v),
    )
}

/// A pseudo-header, where there is one.
pub open spec fn opt_header<T>(
    v: Option<T>,
    f: spec_fn(T) -> HeaderView<Seq<u8>>,
) -> Seq<HeaderView<Seq<u8>>> {
    match v {
        Some(v) => seq![f(v)],
        None => Seq::empty(),
    }
}

/// A field of a list as a header.
pub open spec fn field_header(entry: (Seq<u8>, Seq<u8>, bool)) -> HeaderView<Seq<u8>> {
    HeaderView::Field { name: entry.0, value: entry.1, sensitive: entry.2 }
}

/// The headers of a block: pseudo-headers first.
pub open spec fn header_list(
    pseudo: PseudoView,
    entries: Seq<(Seq<u8>, Seq<u8>, bool)>,
) -> Seq<HeaderView<Seq<u8>>> {
    pseudo_list(pseudo) + entries.map_values(|e: (Seq<u8>, Seq<u8>, bool)| field_header(e))
}

/// What an encoder makes of some headers: its table behind them, and the block.
pub open spec fn coded_block(enc: Encoder, headers: Seq<HeaderView<Seq<u8>>>) -> (
    crate::hpack::table::TableView,
    Seq<u8>,
) {
    let start = encoder::updated_table(enc.table@, enc.size_update);
    let block = encoder::encode_all(start, headers);
    (block.0, encoder::update_bytes(enc.size_update) + block.1)
}

/// A header block as frames with payloads of at most `max` bytes. All but the last
/// frame are full, and the last one alone has the `END_HEADERS` flag.
pub open spec fn block_frames(head: Head, block: Seq<u8>, max: nat) -> Seq<u8>
    decreases block.len(),
{
    if block.len() > max && max > 0 {
        let first = Head { flag: head.flag ^ END_HEADERS, ..head };
        let next = Head { kind: Kind::Continuation, flag: END_HEADERS, ..head };
        first.bytes(max) + block.take(max as int) + block_frames(
            next,
            block.skip(max as int),
            max,
        )
    } else {
        head.bytes(block.len()) + block
    }
}

/// Adds a header, where there is one.
fn push_header(r: &mut Vec<Header>, header: Option<Header>)
    requires
        header matches Some(h) ==> encoder::status_ok(h@),
        forall|i: int| 0 <= i < old(r)@.len() ==> encoder::status_ok((#[trigger] old(r)@[i])@),
    ensures
        decoder::headers_view(final(r)@) == decoder::headers_view(old(r)@) + (match header {
            Some(h) => seq![h@],
            None => Seq::empty(),
        }),
        forall|i: int| 0 <= i < final(r)@.len() ==> encoder::status_ok((#[trigger] final(r)@[i])@),
{
    if let Some(h) = header {
        r.push(h);
    }
    assert(decoder::headers_view(r@) =~= decoder::headers_view(old(r)@) + (match header {
        Some(h) => seq![h@],
        None => Seq::empty(),
    }));
}

/// The pseudo-headers in the order in which they are written.
fn pseudo_headers(pseudo: PseudoHeaders) -> (r: Vec<Header>)
    requires
        pseudo@.status matches Some(v) ==> 100 <= v <= 999,
    ensures
        decoder::headers_view(r@) == pseudo_list(pseudo@),
        forall|i: int| 0 <= i < r@.len() ==> encoder::status_ok((#[trigger] r@[i])@),
{
    let mut r: Vec<Header> = Vec::new();
    assert(decoder::headers_view(r@) =~= Seq::empty());
    push_header(
        &mut r,
        match pseudo.method {
            Some(v) => Some(Header::Method(v)),
            None => None,
        },
    );
    push_header(
        &mut r,
        match pseudo.scheme {
            Some(v) => Some(Header::Scheme(v)),
            None => None,
        },
    );
    push_header(
        &mut r,
        match pseudo.authority {
            Some(v) => Some(Header::Authority(v)),
            None => None,
        },
    );
    push_header(
        &mut r,
        match pseudo.path {
            Some(v) => Some(Header::Path(v)),
            None => None,
        },
    );
    push_header(
        &mut r,
        match pseudo.protocol {
            Some(v) => Some(Header::Protocol(v.into_string())),
            None => None,
        },
    );
    push_header(
        &mut r,
        match pseudo.status {
            Some(v) => Some(Header::Status(v)),
            None => None,
        },
    );
    let ghost method = opt_header(pseudo@.method, |v| HeaderView::Method(v));
    assert(Seq::<HeaderView<Seq<u8>>>::empty() + method =~= method);
    r
}

/// The headers of a block, pseudo-headers first.
pub fn headers_of(pseudo: PseudoHeaders, entries: Vec<(Vec<u8>, HeaderValue)>) -> (r: Vec<Header>)
    requires
        pseudo@.status matches Some(v) ==> 100 <= v <= 999,
    ensures
        decoder::headers_view(r@) == header_list(pseudo@, http::entries_view(entries@)),
        forall|i: int| 0 <= i < r@.len() ==> encoder::status_ok((#[trigger] r@[i])@),
{
    let mut r: Vec<Header> = pseudo_headers(pseudo);
    let ghost head = decoder::headers_view(r@);
    let ghost list = http::entries_view(entries@);
    let ghost tail = list.map_values(|e: (Seq<u8>, Seq<u8>, bool)| field_header(e));
    for entry in iter: entries
        invariant
            iter.seq() == entries@,
            list == http::entries_view(entries@),
            tail == list.map_values(|e: (Seq<u8>, Seq<u8>, bool)| field_header(e)),
            decoder::headers_view(r@) =~= head + tail.take(iter.index() as int),
            forall|i: int| 0 <= i < r@.len() ==> encoder::status_ok((#[trigger] r@[i])@),
    {
        let ghost n = iter.index() as int;
        proof {
            assert(list[n] == http::entry_view(entry));
            assert(tail.take(n + 1) =~= tail.take(n).push(field_header(list[n])));
        }
        let ghost before = r@;
        let (name, value) = entry;
        r.push(Header::Field { name, value });
        assert(decoder::headers_view(r@) =~= decoder::headers_view(before).push(
            field_header(list[n]),
        ));
    }
    assert(tail.take(tail.len() as int) =~= tail);
    r
}

/// Writes a header block as frames.
pub fn put_block(head: &Head, block: &[u8], dst: &mut Vec<u8>, max_size: usize)
    requires
        0 < max_size < 0x100_0000,
    ensures
        final(dst)@ == old(dst)@ + block_frames(*head, block@, max_size as nat),
{
    let mut head = *head;
    let ghost first = head;
    let mut start: usize = 0;
    let len: usize = block.len();
    assert(block@.skip(0) =~= block@);
    while len - start > max_size
        invariant
            start <= len == block@.len(),
            0 < max_size < 0x100_0000,
            dst@ + block_frames(head, block@.skip(start as int), max_size as nat) =~= old(dst)@
                + block_frames(first, block@, max_size as nat),
        decreases len - start,
    {
        let ghost rest = block@.skip(start as int);
        let ghost before = dst@;
        let end: usize = start + max_size;
        Head::new(head.kind(), head.flag() ^ END_HEADERS, head.stream_id()).encode(max_size, dst);
        dst.extend_from_slice(&block[start..end]);
        proof {
            assert(block@.subrange(start as int, end as int) =~= rest.take(max_size as int));
            assert(rest.skip(max_size as int) =~= block@.skip(end as int));
        }
        head = Head::new(Kind::Continuation, END_HEADERS, head.stream_id());
        start = end;
    }
    head.encode(len - start, dst);
    dst.extend_from_slice(&block[start..len]);
    assert(block@.subrange(start as int, len as int) =~= block@.skip(start as int));
    assert(dst@ =~= old(dst)@ + block_frames(first, block@, max_size as nat));
}

impl HeaderBlock {
    /// Compresses the headers and writes them as frames.
    pub fn encode(self, encoder: &mut Encoder, head: &Head, dst: &mut Vec<u8>, max_size: usize)
        requires
            old(encoder).wf(),
            0 < max_size < 0x100_0000,
            self@.pseudo.status matches Some(v) ==> 100 <= v <= 999,
        ensures
            final(encoder).wf(),
            final(encoder).size_update is None,
            exists|entries: Seq<(Seq<u8>, Seq<u8>, bool)>| #[trigger]
                http::lists(self@.fields, entries) && all_valid(entries) && {
                    let block = coded_block(*old(encoder), header_list(self@.pseudo, entries));
                    &&& final(encoder).table@ == block.0
                    &&& final(dst)@ == old(dst)@ + block_frames(*head, block.1, max_size as nat)
                },
    {
        let entries = http::map_entries(&self.fields);
        let ghost list = http::entries_view(entries@);
        encode_entries(self.pseudo, entries, encoder, head, dst, max_size);
        assert(http::lists(self@.fields, list));
    }
}

/// Compresses pseudo-headers and the fields of a list, and writes them as frames.
pub fn encode_entries(
    pseudo: PseudoHeaders,
    entries: Vec<(Vec<u8>, HeaderValue)>,
    encoder: &mut Encoder,
    head: &Head,
    dst: &mut Vec<u8>,
    max_size: usize,
)
    requires
        old(encoder).wf(),
        0 < max_size < 0x100_0000,
        pseudo@.status matches Some(v) ==> 100 <= v <= 999,
    ensures
        final(encoder).wf(),
        final(encoder).size_update is None,
        ({
            let block = coded_block(
                *old(encoder),
                header_list(pseudo@, http::entries_view(entries@)),
            );
            &&& final(encoder).table@ == block.0
            &&& final(dst)@ == old(dst)@ + block_frames(*head, block.1, max_size as nat)
        }),
{
    let ghost p = pseudo@;
    let headers = headers_of(pseudo, entries);
    let mut block: Vec<u8> = Vec::new();
    encoder.encode(headers.as_slice(), &mut block);
    assert(block@ =~= coded_block(
        *old(encoder),
        header_list(p, http::entries_view(entries@)),
    ).1);
    put_block(head, block.as_slice(), dst, max_size);
}

} // verus!
