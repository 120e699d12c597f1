//! Messages that a connection delivers.
use ntex_http::HeaderMap;
use vstd::prelude::*;

use crate::connection::Connection;
use crate::error::{OperationError, StreamError};
use crate::frame::headers::Fields;
use crate::frame::pseudo::PseudoView;
use crate::frame::{PseudoHeaders, StreamId};
use crate::http;
use crate::stream::{Capacity, StreamRef};

verus! {

/// Message delivered by an HTTP/2 connection dispatcher.
pub struct Message {
    /// Stream associated with this message.
    pub stream: StreamRef,
    /// Message payload or lifecycle event.
    pub kind: MessageKind,
}

/// HTTP/2 stream message.
pub enum MessageKind {
    /// Initial request or response headers.
    Headers {
        /// HTTP/2 pseudo-headers.
        pseudo: PseudoHeaders,
        /// Regular HTTP headers.
        headers: HeaderMap,
        /// Whether the peer closed its send side with these headers.
        eof: bool,
    },
    /// Payload bytes and their receive-window capacity.
    Data(Vec<u8>, Capacity),
    /// End-of-stream data, trailers, or error.
    Eof(StreamEof),
    /// Connection-level failure affecting the stream.
    Disconnect(OperationError),
}

/// Final event for an HTTP/2 stream.
pub enum StreamEof {
    /// Final payload bytes.
    Data(Vec<u8>),
    /// Trailing headers.
    Trailers(HeaderMap),
    /// Stream-level error.
    Error(StreamError),
}

/// What a message says.
#[verifier::ext_equal]
pub struct MessageView {
    pub stream: StreamRef,
    pub kind: KindView,
}

#[verifier::ext_equal]
pub enum KindView {
    Headers { pseudo: PseudoView, headers: Fields, eof: bool },
    Data(Seq<u8>, Capacity),
    Eof(EofView),
    Disconnect(OperationError),
}

#[verifier::ext_equal]
pub enum EofView {
    Data(Seq<u8>),
    Trailers(Fields),
    Error(StreamError),
}

impl View for StreamEof {
    type V = EofView;

    open spec fn view(&self) -> EofView {
        match *self {
            StreamEof::Data(data) => EofView::Data(data@),
            StreamEof::Trailers(map) => EofView::Trailers(http::header_fields(map)),
            StreamEof::Error(err) => EofView::Error(err),
        }
    }
}

impl View for MessageKind {
    type V = KindView;

    open spec fn view(&self) -> KindView {
        match *self {
            MessageKind::Headers { pseudo, headers, eof } => KindView::Headers {
                pseudo: pseudo@,
                headers: http::header_fields(headers),
                eof,
            },
            MessageKind::Data(data, cap) => KindView::Data(data@, cap),
            MessageKind::Eof(eof) => KindView::Eof(eof@),
            MessageKind::Disconnect(err) => KindView::Disconnect(err),
        }
    }
}

impl View for Message {
    type V = MessageView;

    open spec fn view(&self) -> MessageView {
        MessageView { stream: self.stream, kind: self.kind@ }
    }
}

impl Message {
    pub fn new(pseudo: PseudoHeaders, headers: HeaderMap, eof: bool, stream: StreamRef) -> (r:
        Message)
        ensures
            r@ == (MessageView {
                stream,
                kind: KindView::Headers {
                    pseudo: pseudo@,
                    headers: http::header_fields(headers),
                    eof,
                },
            }),
    {
        Message { stream, kind: MessageKind::Headers { pseudo, headers, eof } }
    }

    pub fn data(data: Vec<u8>, capacity: Capacity, stream: StreamRef) -> (r: Message)
        ensures
            r@ == (MessageView { stream, kind: KindView::Data(data@, capacity) }),
    {
        Message { stream, kind: MessageKind::Data(data, capacity) }
    }

    pub fn eof_data(data: Vec<u8>, stream: StreamRef) -> (r: Message)
        ensures
            r@ == (MessageView { stream, kind: KindView::Eof(EofView::Data(data@)) }),
    {
        Message { stream, kind: MessageKind::Eof(StreamEof::Data(data)) }
    }

    pub fn trailers(hdrs: HeaderMap, stream: StreamRef) -> (r: Message)
        ensures
            r@ == (MessageView {
                stream,
                kind: KindView::Eof(EofView::Trailers(http::header_fields(hdrs))),
            }),
    {
        Message { stream, kind: MessageKind::Eof(StreamEof::Trailers(hdrs)) }
    }

    pub fn error(err: StreamError, stream: StreamRef) -> (r: Message)
        ensures
            r@ == (MessageView { stream, kind: KindView::Eof(EofView::Error(err)) }),
    {
        Message { stream, kind: MessageKind::Eof(StreamEof::Error(err)) }
    }

    pub fn disconnect(err: OperationError, stream: StreamRef) -> (r: Message)
        ensures
            r@ == (MessageView { stream, kind: KindView::Disconnect(err) }),
    {
        Message { stream, kind: MessageKind::Disconnect(err) }
    }

    /// Returns the associated stream identifier.
    pub fn id(&self, con: &Connection) -> (r: StreamId)
        requires
            con@.has(self@.stream),
        ensures
            r == con@.slot(self@.stream).id,
    {
        self.stream.id(con)
    }

    /// Returns the message kind.
    pub fn kind(&self) -> (r: &MessageKind)
        ensures
            r@ == self@.kind,
    {
        &self.kind
    }

    /// Returns the associated stream.
    pub fn stream(&self) -> (r: StreamRef)
        ensures
            r == self@.stream,
    {
        self.stream
    }
}

} // verus!
