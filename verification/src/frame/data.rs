use vstd::prelude::*;

use crate::frame::{util, FrameError, Head, Kind, StreamId, HEADER_LEN};

verus! {

/// Data frame
///
/// Data frames convey arbitrary, variable-length sequences of octets associated
/// with a stream. One or more DATA frames are used, for instance, to carry HTTP
/// request or response payloads.
#[derive(Debug, Clone)]
pub struct Data {
    pub stream_id: StreamId,
    pub data: Vec<u8>,
    pub flags: DataFlags,
}

/// What a DATA frame says.
#[verifier::ext_equal]
pub struct DataView {
    pub stream_id: StreamId,
    pub data: Seq<u8>,
    pub flags: DataFlags,
}

#[derive(Debug, Copy, Clone, PartialEq, Eq, Structural)]
pub struct DataFlags(pub u8);

pub const END_STREAM: u8 = 0x1;

pub const PADDED: u8 = 0x8;

pub const ALL: u8 = 0x9;

impl View for Data {
    type V = DataView;

    open spec fn view(&self) -> DataView {
        DataView { stream_id: self.stream_id, data: self.data@, flags: self.flags }
    }
}

impl DataView {
    /// The frame that belongs to a head and the payload behind it.
    pub open spec fn loaded(head: Head, payload: Seq<u8>) -> Result<DataView, FrameError> {
        let flags = DataFlags(head.flag & ALL);
        if head.stream_id.0 == 0 {
            Err(FrameError::InvalidStreamId)
        } else if flags.padded() {
            match util::unpadded(payload) {
                Ok(data) => Ok(DataView { stream_id: head.stream_id, data, flags }),
                Err(e) => Err(e),
            }
        } else {
            Ok(DataView { stream_id: head.stream_id, data: payload, flags })
        }
    }

    pub open spec fn head(self) -> Head {
        Head { kind: Kind::Data, flag: self.flags.0, stream_id: self.stream_id }
    }

    /// The frame on the wire.
    pub open spec fn bytes(self) -> Seq<u8> {
        self.head().bytes(self.data.len()) + self.data
    }

    /// A frame of an existing stream, without unknown flags.
    pub open spec fn wf(self) -> bool {
        self.stream_id.0 != 0 && self.stream_id.wf() && self.flags.0 & ALL == self.flags.0
    }
}

impl Data {
    /// Creates a new DATA frame.
    pub fn new(stream_id: StreamId, payload: Vec<u8>) -> (r: Data)
        requires
            stream_id.0 != 0,
        ensures
            r@ == (DataView { stream_id, data: payload@, flags: DataFlags(0) }),
            stream_id.wf() ==> r@.wf(),
    {
        assert(0u8 & ALL == 0) by (bit_vector);
        Data { stream_id, data: payload, flags: DataFlags(0) }
    }

    /// Returns the stream identifier that this frame is associated with.
    ///
    /// This cannot be a zero stream identifier.
    pub fn stream_id(&self) -> (r: StreamId)
        ensures
            r == self@.stream_id,
    {
        self.stream_id
    }

    /// Gets the value of the `END_STREAM` flag for this frame.
    ///
    /// If true, this frame is the last that the endpoint will send for the
    /// identified stream.
    pub fn is_end_stream(&self) -> (r: bool)
        ensures
            r == self@.flags.end_stream(),
    {
        self.flags.is_end_stream()
    }

    /// Sets the value for the `END_STREAM` flag on this frame.
    pub fn set_end_stream(&mut self)
        ensures
            final(self)@ == (DataView { flags: DataFlags(old(self).flags.0 | END_STREAM), ..old(self)@ }),
            final(self)@.flags.end_stream(),
            old(self)@.wf() ==> final(self)@.wf(),
    {
        let ghost f = self.flags.0;
        self.flags.set_end_stream();
        assert(f & ALL == f ==> (f | END_STREAM) & ALL == (f | END_STREAM)) by (bit_vector);
    }

    /// Returns whether the `PADDED` flag is set on this frame.
    pub fn is_padded(&self) -> (r: bool)
        ensures
            r == self@.flags.padded(),
    {
        self.flags.is_padded()
    }

    /// Sets the value for the `PADDED` flag on this frame.
    pub fn set_padded(&mut self)
        ensures
            final(self)@ == (DataView { flags: DataFlags(old(self).flags.0 | PADDED), ..old(self)@ }),
    {
        self.flags.set_padded();
    }

    /// Returns a reference to this frame's payload.
    ///
    /// This does **not** include any padding that might have been originally
    /// included.
    pub fn payload(&self) -> (r: &Vec<u8>)
        ensures
            r@ == self@.data,
    {
        &self.data
    }

    /// Returns a mutable reference to this frame's payload.
    ///
    /// This does **not** include any padding that might have been originally
    /// included.
    pub fn payload_mut(&mut self) -> (r: &mut Vec<u8>)
        ensures
            r@ == old(self)@.data,
            final(self)@ == (DataView { data: final(r)@, ..old(self)@ }),
    {
        &mut self.data
    }

    /// Consumes `self` and returns the frame's payload.
    ///
    /// This does **not** include any padding that might have been originally
    /// included.
    pub fn into_payload(self) -> (r: Vec<u8>)
        ensures
            r@ == self@.data,
    {
        self.data
    }

    pub fn head(&self) -> (r: Head)
        ensures
            r == self@.head(),
    {
        Head::new(Kind::Data, self.flags.0, self.stream_id)
    }

    /// Builds the frame from its head and the bytes behind the head.
    pub fn load(head: Head, payload: &[u8]) -> (r: Result<Data, FrameError>)
        ensures
            util::viewed(r) == DataView::loaded(head, payload@),
    {
        let flags = DataFlags::load(head.flag());

        // The stream identifier must not be zero
        if head.stream_id().is_zero() {
            return Err(FrameError::InvalidStreamId);
        }
        let data: Vec<u8> = if flags.is_padded() {
            match util::strip_padding(payload) {
                Ok(data) => data,
                Err(e) => return Err(e),
            }
        } else {
            util::copy(payload)
        };
        Ok(Data { data, flags, stream_id: head.stream_id() })
    }

    /// Encode the data frame into the `dst` buffer.
    pub fn encode(&self, dst: &mut Vec<u8>)
        ensures
            final(dst)@ == old(dst)@ + self@.bytes(),
    {
        // Encode the frame head to the buffer
        self.head().encode(self.data.len(), dst);
        // Encode payload
        dst.extend_from_slice(self.data.as_slice());
        assert(dst@ =~= old(dst)@ + self@.bytes());
    }
}

// ===== impl DataFlags =====

impl DataFlags {
    pub open spec fn end_stream(self) -> bool {
        self.0 & END_STREAM == END_STREAM
    }

    pub open spec fn padded(self) -> bool {
        self.0 & PADDED == PADDED
    }

    pub fn load(bits: u8) -> (r: DataFlags)
        ensures
            r == DataFlags(bits & ALL),
    {
        DataFlags(bits & ALL)
    }

    pub fn is_empty(&self) -> (r: bool)
        ensures
            r == (self.0 == 0),
    {
        self.0 == 0
    }

    pub fn is_end_stream(&self) -> (r: bool)
        ensures
            r == self.end_stream(),
    {
        self.0 & END_STREAM == END_STREAM
    }

    pub fn set_end_stream(&mut self)
        ensures
            *final(self) == DataFlags(old(self).0 | END_STREAM),
            final(self).end_stream(),
    {
        let ghost f = self.0;
        self.0 = self.0 | END_STREAM;
        assert((f | END_STREAM) & END_STREAM == END_STREAM) by (bit_vector);
    }

    pub fn is_padded(&self) -> (r: bool)
        ensures
            r == self.padded(),
    {
        self.0 & PADDED == PADDED
    }

    pub fn set_padded(&mut self)
        ensures
            *final(self) == DataFlags(old(self).0 | PADDED),
            final(self).padded(),
    {
        let ghost f = self.0;
        self.0 = self.0 | PADDED;
        assert((f | PADDED) & PADDED == PADDED) by (bit_vector);
    }
}

/// A DATA frame without padding that was written reads back as itself.
pub proof fn data_round_trip(frame: DataView)
    requires
        frame.wf(),
        !frame.flags.padded(),
        frame.data.len() < 0x100_0000,
    ensures
        frame.bytes().len() == HEADER_LEN + frame.data.len(),
        DataView::loaded(Head::parsed(frame.bytes()), frame.bytes().skip(HEADER_LEN as int)) == Ok::<
            DataView,
            FrameError,
        >(frame),
{
    crate::frame::head::head_round_trip(frame.head(), frame.data.len(), frame.data);
    assert(frame.bytes().skip(HEADER_LEN as int) =~= frame.data);
}

} // verus!
