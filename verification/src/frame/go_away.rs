use vstd::prelude::*;

use crate::frame::{reason, util, wire, FrameError, Head, Kind, Reason, StreamId, HEADER_LEN};

verus! {

/// GOAWAY frame: ends the connection.
#[derive(Debug, Clone)]
pub struct GoAway {
    pub last_stream_id: StreamId,
    pub error_code: Reason,
    pub data: Vec<u8>,
}

/// What a GOAWAY frame says.
#[verifier::ext_equal]
pub struct GoAwayView {
    pub last_stream_id: StreamId,
    pub error_code: Reason,
    pub data: Seq<u8>,
}

impl View for GoAway {
    type V = GoAwayView;

    open spec fn view(&self) -> GoAwayView {
        GoAwayView {
            last_stream_id: self.last_stream_id,
            error_code: self.error_code,
            data: self.data@,
        }
    }
}

impl GoAwayView {
    pub open spec fn wf(self) -> bool {
        self.last_stream_id.wf() && self.error_code.wf()
    }

    /// A frame with nothing but a reason.
    pub open spec fn plain(reason: Reason) -> GoAwayView {
        GoAwayView { last_stream_id: StreamId(0), error_code: reason, data: Seq::empty() }
    }

    /// The frame that belongs to a payload.
    pub open spec fn loaded(payload: Seq<u8>) -> Result<GoAwayView, FrameError> {
        if payload.len() < 8 {
            Err(FrameError::BadFrameSize)
        } else {
            Ok(
                GoAwayView {
                    last_stream_id: StreamId::parsed(payload),
                    error_code: Reason::of_code(wire::be32(payload.skip(4)) as u32),
                    data: payload.skip(8),
                },
            )
        }
    }

    pub open spec fn payload(self) -> Seq<u8> {
        wire::be32_bytes(self.last_stream_id.0) + wire::be32_bytes(self.error_code.spec_code())
            + self.data
    }

    pub open spec fn head(self) -> Head {
        Head { kind: Kind::GoAway, flag: 0, stream_id: StreamId(0) }
    }

    /// The frame on the wire.
    pub open spec fn bytes(self) -> Seq<u8> {
        self.head().bytes(8 + self.data.len()) + self.payload()
    }
}

impl GoAway {
    pub fn new(reason: Reason) -> (r: GoAway)
        ensures
            r@ == GoAwayView::plain(reason),
    {
        GoAway { last_stream_id: StreamId::zero(), data: Vec::new(), error_code: reason }
    }

    pub fn set_last_stream_id(self, id: StreamId) -> (r: GoAway)
        ensures
            r@ == (GoAwayView { last_stream_id: id, ..self@ }),
    {
        GoAway { last_stream_id: id, ..self }
    }

    pub fn set_data(self, data: Vec<u8>) -> (r: GoAway)
        ensures
            r@ == (GoAwayView { data: data@, ..self@ }),
    {
        GoAway { data, ..self }
    }

    pub fn set_reason(self, error_code: Reason) -> (r: GoAway)
        ensures
            r@ == (GoAwayView { error_code, ..self@ }),
    {
        GoAway { error_code, ..self }
    }

    pub fn last_stream_id(&self) -> (r: StreamId)
        ensures
            r == self@.last_stream_id,
    {
        self.last_stream_id
    }

    pub fn reason(&self) -> (r: Reason)
        ensures
            r == self@.error_code,
    {
        self.error_code
    }

    pub fn data(&self) -> (r: &Vec<u8>)
        ensures
            r@ == self@.data,
    {
        &self.data
    }

    /// Builds the frame from the bytes behind its head.
    pub fn load(payload: &[u8]) -> (r: Result<GoAway, FrameError>)
        ensures
            util::viewed(r) == GoAwayView::loaded(payload@),
    {
        let len: usize = payload.len();
        if len < 8 {
            return Err(FrameError::BadFrameSize);
        }
        let (last_stream_id, _) = StreamId::parse(payload);
        let error_code: u32 = wire::get_u32(payload, 4);
        let data: Vec<u8> = util::copy(&payload[8..len]);
        assert(data@ =~= payload@.skip(8));

        Ok(GoAway { last_stream_id, data, error_code: Reason::from(error_code) })
    }

    pub fn encode(&self, dst: &mut Vec<u8>)
        requires
            8 + self@.data.len() <= usize::MAX,
        ensures
            final(dst)@ == old(dst)@ + self@.bytes(),
    {
        let head = Head::new(Kind::GoAway, 0, StreamId::zero());
        head.encode(8 + self.data.len(), dst);
        wire::put_u32(dst, self.last_stream_id.0);
        wire::put_u32(dst, self.error_code.code());
        dst.extend_from_slice(self.data.as_slice());
        assert(dst@ =~= old(dst)@ + self@.bytes());
    }
}

/// A GOAWAY frame that was written reads back as itself.
pub proof fn go_away_round_trip(frame: GoAwayView)
    requires
        frame.wf(),
        8 + frame.data.len() < 0x100_0000,
    ensures
        frame.bytes().len() == HEADER_LEN + 8 + frame.data.len(),
        GoAwayView::loaded(frame.bytes().skip(HEADER_LEN as int)) == Ok::<GoAwayView, FrameError>(
            frame,
        ),
        Head::parsed(frame.bytes()) == frame.head(),
{
    let code = wire::be32_bytes(frame.error_code.spec_code());
    let id = wire::be32_bytes(frame.last_stream_id.0);
    crate::frame::head::head_round_trip(frame.head(), 8 + frame.data.len(), frame.payload());
    wire::be32_inverse(frame.last_stream_id.0, code + frame.data);
    wire::be32_inverse(frame.error_code.spec_code(), frame.data);
    reason::reason_code_inverse(frame.error_code, 0);
    assert(frame.bytes().skip(HEADER_LEN as int) =~= frame.payload());
    assert(frame.payload() =~= id + (code + frame.data));
    assert(frame.payload().skip(4) =~= code + frame.data);
    assert(frame.payload().skip(8) =~= frame.data);
}

} // verus!
