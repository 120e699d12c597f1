//! What holds of the streams of a client.
use vstd::prelude::*;

use crate::client::simple;
use crate::client::stream::{self, InflightView, RecvStream, SendStream};
use crate::connection::life;
use crate::connection::sent::{self, frames};
use crate::connection::view::ConView;
use crate::error::OperationError;
use crate::frame::headers::{BlockView, Fields, HeadersView};
use crate::frame::pseudo::PseudoView;
use crate::frame::{FrameView, HeadersFlag, Reason, Reset};
use crate::message::{KindView, MessageView};
use crate::stream::StreamRef;

verus! {

/// A request of a client that is sent is one HEADERS frame with what the caller asked
/// for. Both halves that the caller gets belong to the new stream, and no message of it
/// is waiting. The messages of other streams stay.
pub proof fn client_request_is_sent(
    con: ConView,
    before: Map<u32, InflightView>,
    next: ConView,
    storage: Map<u32, InflightView>,
    r: Result<(SendStream, RecvStream), OperationError>,
    authority: Seq<char>,
    method: Seq<char>,
    path: Seq<char>,
    fields: Fields,
    eof: bool,
)
    requires
        con.wf(),
        con.slots.len() < usize::MAX,
        con.state.active_local_streams < u32::MAX,
        simple::sent(
            con.request(authority, method, path, fields, eof),
            before,
            next,
            storage,
            r,
        ),
    ensures
        r is Ok <==> con.state.error is None && !con.state.flags.disconnect_when_ready
            && con.state.next_stream_id.0 < 0x7fff_fffe,
        r is Err ==> storage == before && frames(next.actions) == frames(con.actions),
        r matches Ok((send, recv)) ==> {
            &&& send.0 == recv.0
            &&& next.has(send.0)
            &&& next.slot(send.0).id == con.state.next_stream_id
            &&& storage.dom().contains(con.state.next_stream_id.0)
            &&& storage[con.state.next_stream_id.0].stream == send.0
            &&& storage[con.state.next_stream_id.0].messages.len() == 0
            &&& storage.remove(con.state.next_stream_id.0) == before.remove(
                con.state.next_stream_id.0,
            )
            &&& frames(next.actions) == frames(con.actions).push(
                FrameView::Headers(
                    HeadersView {
                        stream_id: con.state.next_stream_id,
                        flags: HeadersFlag(
                            if eof {
                                5
                            } else {
                                4
                            },
                        ),
                        block: BlockView {
                            pseudo: PseudoView {
                                method: Some(method),
                                scheme: Some(
                                    if con.state.flags.secure {
                                        "https"@
                                    } else {
                                        "http"@
                                    },
                                ),
                                authority: Some(authority),
                                path: Some(path),
                                protocol: None,
                                status: None,
                            },
                            fields,
                        },
                    },
                ),
            )
        },
{
    sent::request_frame(con, authority, method, path, fields, eof);
    let id = con.state.next_stream_id.0;
    if r is Ok {
        assert(storage.remove(id) =~= before.remove(id));
    }
}

/// A half that is given up cancels its stream, unless this half has come to its end. The
/// peer then gets one RST_STREAM frame, and otherwise none.
pub proof fn halves_are_given_up(con: ConView, s: StreamRef)
    requires
        con.has(s),
    ensures
        ({
            let cancel = FrameView::Reset(
                Reset { stream_id: con.slot(s).id, error_code: Reason::CANCEL },
            );
            &&& frames(con.give_up_send(s).actions) == if con.slot(s).send is Closed {
                frames(con.actions)
            } else {
                frames(con.actions).push(cancel)
            }
            &&& frames(con.give_up_recv(s).actions) == if con.slot(s).recv is Closed {
                frames(con.actions)
            } else {
                frames(con.actions).push(cancel)
            }
            &&& con.give_up_send(s).slot(s).send is Closed
            &&& con.give_up_recv(s).slot(s).recv is Closed
            &&& con.slot(s).send is Closed ==> con.give_up_send(s).slot(s).recv == con.slot(s).recv
        }),
{
    let st = crate::stream::StreamState {
        flags: crate::stream::StreamFlags { reset_on_drop: true, ..con.slot(s).flags },
        ..con.slot(s)
    };
    life::cancel_resets(con.with_slot(s, st), s);
    life::cancel_resets(con, s);
}

/// Messages that are dropped give back all the capacity that they hold: as many bytes of
/// the stream are free again as the messages have.
pub proof fn dropped_messages_give_back(con: ConView, s: StreamRef, messages: Seq<MessageView>)
    requires
        con.has(s),
        forall|k: int|
            0 <= k < messages.len() ==> ((#[trigger] messages[k]).kind matches KindView::Data(
                _,
                cap,
            ) ==> cap.stream == s),
        stream::capacity_sum(messages) <= con.slot(s).recv_size,
    ensures
        con.drop_messages(messages).slot(s).recv_size == con.slot(s).recv_size
            - stream::capacity_sum(messages),
        stream::capacity_sum(messages) >= 0,
        con.drop_messages(messages).slots.len() == con.slots.len(),
        con.drop_messages(messages).state == con.state,
    decreases messages.len(),
{
    if messages.len() > 0 {
        let rest = messages.skip(1);
        assert forall|k: int| 0 <= k < rest.len() implies ((
        #[trigger] rest[k]).kind matches KindView::Data(_, cap) ==> cap.stream == s) by {
            assert(rest[k] == messages[k + 1]);
        }
        sum_is_positive(rest);
        match messages[0].kind {
            KindView::Data(_, cap) => {
                reveal(ConView::consumed);
                dropped_messages_give_back(con.released(s, cap.size as int), s, rest);
            },
            _ => dropped_messages_give_back(con, s, rest),
        }
    }
}

proof fn sum_is_positive(messages: Seq<MessageView>)
    ensures
        stream::capacity_sum(messages) >= 0,
    decreases messages.len(),
{
    if messages.len() > 0 {
        sum_is_positive(messages.skip(1));
    }
}

/// The capacity of a list of messages is that of its DATA, one by one.
pub proof fn capacity_adds_up(messages: Seq<MessageView>, m: MessageView)
    ensures
        stream::capacity_sum(messages.push(m)) == stream::capacity_sum(messages) + match m.kind {
            KindView::Data(_, cap) => cap.size as int,
            _ => 0,
        },
    decreases messages.len(),
{
    if messages.len() == 0 {
        assert(messages.push(m).skip(1) =~= Seq::<MessageView>::empty());
        assert(stream::capacity_sum(Seq::<MessageView>::empty()) == 0);
    } else {
        capacity_adds_up(messages.skip(1), m);
        assert(messages.push(m).skip(1) =~= messages.skip(1).push(m));
    }
}

} // verus!
