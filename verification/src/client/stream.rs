//! Streams that a client has opened.
use std::collections::{HashMap, VecDeque};

use ntex_http::HeaderMap;
use vstd::prelude::*;

use crate::connection::view::ConView;
use crate::connection::Connection;
use crate::error::OperationError;
use crate::frame::{Reason, StreamId, WindowSize};
use crate::http;
use crate::message::{KindView, Message, MessageKind, MessageView};
use crate::stream::{payload_result, Stream, StreamFlags, StreamRef, StreamState};
use crate::stream_data::StreamData;

verus! {

broadcast use vstd::std_specs::hash::group_hash_axioms;

/// Messages that have come on a stream and have not been received yet.
pub enum Response {
    Empty,
    One(Message),
    Many(VecDeque<Message>),
}

impl View for Response {
    type V = Seq<MessageView>;

    open spec fn view(&self) -> Seq<MessageView> {
        match *self {
            Response::Empty => Seq::empty(),
            Response::One(msg) => seq![msg@],
            Response::Many(msgs) => msgs@.map_values(|m: Message| m@),
        }
    }
}

/// A stream that is in use, with the messages that have come on it.
pub struct Inflight {
    pub stream: Stream,
    pub response: Response,
}

#[verifier::ext_equal]
pub struct InflightView {
    pub stream: StreamRef,
    pub messages: Seq<MessageView>,
}

impl View for Inflight {
    type V = InflightView;

    open spec fn view(&self) -> InflightView {
        InflightView { stream: self.stream.0, messages: self.response@ }
    }
}

/// A message by what it says.
pub open spec fn opt_message(msg: Option<Message>) -> Option<MessageView> {
    match msg {
        Some(m) => Some(m@),
        None => None,
    }
}

impl Inflight {
    /// Takes the first message.
    pub fn pop(&mut self) -> (r: Option<Message>)
        ensures
            if old(self)@.messages.len() == 0 {
                r is None && final(self)@ == old(self)@
            } else {
                opt_message(r) == Some(old(self)@.messages[0]) && final(self)@ == (InflightView {
                    messages: old(self)@.messages.skip(1),
                    ..old(self)@
                })
            },
    {
        let ghost before = self@;
        let mut response = Response::Empty;
        std::mem::swap(&mut response, &mut self.response);
        match response {
            Response::Empty => None,
            Response::One(msg) => {
                assert(before.messages.skip(1) =~= Seq::<MessageView>::empty());
                Some(msg)
            },
            Response::Many(mut msgs) => {
                let ghost all = msgs@;
                let msg = msgs.pop_front();
                if msgs.len() > 0 {
                    self.response = Response::Many(msgs);
                }
                proof {
                    if all.len() > 0 {
                        assert(before.messages.skip(1) =~= all.skip(1).map_values(
                            |m: Message| m@,
                        ));
                        assert(msgs@ =~= all.skip(1));
                        assert(self@.messages =~= before.messages.skip(1));
                    } else {
                        assert(self@.messages =~= before.messages);
                    }
                }
                msg
            },
        }
    }

    /// Adds a message behind the others.
    pub fn push(&mut self, item: Message)
        ensures
            final(self)@ == (InflightView {
                messages: old(self)@.messages.push(item@),
                ..old(self)@
            }),
    {
        let ghost before = self@;
        let mut response = Response::Empty;
        std::mem::swap(&mut response, &mut self.response);
        match response {
            Response::One(msg) => {
                let mut msgs: VecDeque<Message> = VecDeque::with_capacity(8);
                msgs.push_back(msg);
                msgs.push_back(item);
                self.response = Response::Many(msgs);
            },
            Response::Many(mut messages) => {
                messages.push_back(item);
                self.response = Response::Many(messages);
            },
            Response::Empty => {
                self.response = Response::One(item);
            },
        }
        assert(self@.messages =~= before.messages.push(item@));
    }
}

/// The streams of a client.
pub struct InflightStorage {
    pub inflight: HashMap<u32, Inflight>,
}

impl View for InflightStorage {
    type V = Map<u32, InflightView>;

    open spec fn view(&self) -> Map<u32, InflightView> {
        self.inflight@.map_values(|i: Inflight| i@)
    }
}

/// What became of a message.
#[derive(Debug, Copy, Clone, PartialEq, Eq, Structural)]
pub enum Handled {
    /// The message waits to be received; the receiver is to be woken up. After
    /// the last message of a stream another one may be opened.
    Queued { eof: bool },
    /// There is no such stream.
    Unknown,
    /// There is no such stream, and it does not matter.
    Ignored,
}

/// What a receiver gets.
pub enum RecvPoll {
    Message(Message),
    /// Nothing more will come.
    End,
    /// Nothing has come yet.
    Wait,
}

/// No message follows on the stream.
pub open spec fn is_last(kind: KindView) -> bool {
    match kind {
        KindView::Headers { pseudo, headers, eof } => eof,
        KindView::Eof(_) => true,
        KindView::Disconnect(_) => true,
        KindView::Data(_, _) => false,
    }
}

/// A stream whose halves have owners of their own: giving up the stream does not
/// cancel it any more.
pub open spec fn halved(con: ConView, s: StreamRef) -> ConView {
    let st = con.slot(s);
    con.with_slot(s, StreamState { flags: StreamFlags { reset_on_drop: false, ..st.flags }, ..st })
}

impl InflightStorage {
    pub fn new() -> (r: InflightStorage)
        ensures
            r@ == Map::<u32, InflightView>::empty(),
    {
        let r = InflightStorage { inflight: HashMap::new() };
        assert(r@ =~= Map::<u32, InflightView>::empty());
        r
    }

    /// Takes a stream that was opened. Its halves belong to the caller.
    pub fn inflight(&mut self, con: &mut Connection, stream: Stream) -> (r: (SendStream, RecvStream))
        requires
            old(con)@.wf(),
            old(con)@.has(stream.0),
        ensures
            r.0.0 == stream.0,
            r.1.0 == stream.0,
            final(con)@ == halved(old(con)@, stream.0),
            final(con)@.wf(),
            final(self)@ == old(self)@.insert(
                old(con)@.slot(stream.0).id.0,
                InflightView { stream: stream.0, messages: Seq::empty() },
            ),
    {
        let ghost before = self@;
        let id = stream.0.id(con);
        // the send half resets the stream on drop
        stream.0.set_reset_on_drop(con, false);
        let snd = SendStream(stream.0);
        let rcv = RecvStream(stream.0);
        let item = Inflight { stream, response: Response::Empty };
        let ghost added = item@;
        self.inflight.insert(id.0, item);
        assert(self@ =~= before.insert(id.0, added));
        (snd, rcv)
    }

    /// Hands a message to the receiver of its stream. Where there is none, the
    /// message is given up, and its capacity with it.
    pub fn handle(&mut self, con: &mut Connection, msg: Message) -> (r: Handled)
        requires
            old(con)@.wf(),
            old(con)@.has(msg@.stream),
            msg@.kind matches KindView::Data(_, cap) ==> old(con)@.has(cap.stream) && cap.size
                <= old(con)@.slot(cap.stream).recv_size,
        ensures
            ({
                let id = old(con)@.slot(msg@.stream).id.0;
                if old(self)@.dom().contains(id) {
                    &&& r == Handled::Queued { eof: is_last(msg@.kind) }
                    &&& final(self)@ == old(self)@.insert(
                        id,
                        InflightView {
                            messages: old(self)@[id].messages.push(msg@),
                            ..old(self)@[id]
                        },
                    )
                    &&& final(con)@ == old(con)@
                } else {
                    &&& r == if msg@.kind is Disconnect {
                        Handled::Ignored
                    } else {
                        Handled::Unknown
                    }
                    &&& final(self)@ == old(self)@
                    &&& final(con)@ == match msg@.kind {
                        KindView::Data(_, cap) => old(con)@.released(cap.stream, cap.size as int),
                        _ => old(con)@,
                    }
                }
            }),
            final(con)@.wf(),
    {
        let ghost before = self@;
        let id = msg.id(con);
        match self.inflight.remove(&id.0) {
            Some(item) => {
                let mut item = item;
                let eof: bool = match msg.kind() {
                    MessageKind::Headers { pseudo: _, headers: _, eof } => *eof,
                    MessageKind::Eof(_) => true,
                    MessageKind::Disconnect(_) => true,
                    MessageKind::Data(_, _) => false,
                };
                item.push(msg);
                let ghost added = item@;
                self.inflight.insert(id.0, item);
                assert(self@ =~= before.insert(id.0, added));
                Handled::Queued { eof }
            },
            None => {
                assert(self@ =~= before);
                match msg.kind {
                    MessageKind::Disconnect(_) => Handled::Ignored,
                    MessageKind::Data(_, cap) => {
                        cap.release(con);
                        Handled::Unknown
                    },
                    _ => Handled::Unknown,
                }
            },
        }
    }

    /// Polls the next message, returning `End` after the receive side closes.
    pub fn poll_recv(&mut self, con: &Connection, stream: StreamRef) -> (r: RecvPoll)
        requires
            con@.has(stream),
        ensures
            ({
                let id = con@.slot(stream).id.0;
                if old(self)@.dom().contains(id) && old(self)@[id].messages.len() > 0 {
                    &&& r is Message
                    &&& r->Message_0@ == old(self)@[id].messages[0]
                    &&& final(self)@ == old(self)@.insert(
                        id,
                        InflightView {
                            messages: old(self)@[id].messages.skip(1),
                            ..old(self)@[id]
                        },
                    )
                } else {
                    &&& final(self)@ == old(self)@
                    &&& if old(self)@.dom().contains(id) && !(con@.slot(stream).recv is Closed) {
                        r is Wait
                    } else {
                        r is End
                    }
                }
            }),
    {
        let ghost before = self@;
        let id = stream.id(con);
        match self.inflight.remove(&id.0) {
            Some(item) => {
                let mut item = item;
                let msg = item.pop();
                let ghost left = item@;
                self.inflight.insert(id.0, item);
                assert(self@ =~= before.insert(id.0, left));
                match msg {
                    Some(msg) => RecvPoll::Message(msg),
                    None => {
                        assert(self@ =~= before);
                        if stream.recv_state(con).is_closed() {
                            RecvPoll::End
                        } else {
                            RecvPoll::Wait
                        }
                    },
                }
            },
            None => {
                assert(self@ =~= before);
                RecvPoll::End
            },
        }
    }
}

/// Sending half of a client-initiated HTTP/2 stream.
///
/// Giving up an unfinished send stream resets it with `CANCEL`. Sending can
/// continue after the `RecvStream` is given up.
#[derive(Debug)]
pub struct SendStream(pub StreamRef);

impl ConView {
    /// The sending half of a stream is given up.
    pub open spec fn give_up_send(self, s: StreamRef) -> ConView {
        let st = StreamState {
            flags: StreamFlags { reset_on_drop: true, ..self.slot(s).flags },
            ..self.slot(s)
        };
        if st.send is Closed {
            self.with_slot(s, st)
        } else {
            self.with_slot(s, st).cancel(s)
        }
    }

    /// The receiving half of a stream is given up.
    pub open spec fn give_up_recv(self, s: StreamRef) -> ConView {
        if self.slot(s).recv is Closed {
            self
        } else {
            self.cancel(s)
        }
    }
}

/// Cancels a stream, and closes the connection where the stream is to take it
/// along.
fn cancel(con: &mut Connection, stream: StreamRef)
    requires
        old(con)@.wf(),
        old(con)@.has(stream),
    ensures
        final(con)@ == old(con)@.cancel(stream),
        final(con)@.wf(),
        old(con)@.same_capacity(final(con)@),
{
    stream.reset(con, Reason::CANCEL);
    if stream.is_disconnect_on_drop(con) {
        con.disconnect_when_ready();
    }
}

impl SendStream {
    /// Gives the sending half up.
    pub fn release(self, con: &mut Connection)
        requires
            old(con)@.wf(),
            old(con)@.has(self.0),
        ensures
            final(con)@ == old(con)@.give_up_send(self.0),
            final(con)@.wf(),
    {
        self.0.set_reset_on_drop(con, true);
        if !self.0.send_state(con).is_closed() {
            cancel(con, self.0);
        }
    }

    /// Returns the stream identifier.
    pub fn id(&self, con: &Connection) -> (r: StreamId)
        requires
            con@.has(self.0),
        ensures
            r == con@.slot(self.0).id,
    {
        self.0.id(con)
    }

    /// Returns the underlying stream reference.
    pub fn stream(&self) -> (r: StreamRef)
        ensures
            r == self.0,
    {
        self.0
    }

    /// Returns the currently available send capacity.
    pub fn available_send_capacity(&self, con: &Connection) -> (r: WindowSize)
        requires
            con@.has(self.0),
        ensures
            r == con@.available(self.0),
    {
        self.0.available_send_capacity(con)
    }

    /// Sends payload bytes.
    ///
    /// Returns what could not be sent, where the caller has to wait for send
    /// capacity.
    pub fn send_payload(&self, con: &mut Connection, data: Vec<u8>, eof: bool) -> (r: Result<
        Option<StreamData>,
        OperationError,
    >)
        requires
            old(con)@.wf(),
            old(con)@.has(self.0),
        ensures
            final(con)@ == old(con)@.send_payload(self.0, data@, eof).0,
            match old(con)@.send_payload(self.0, data@, eof).1 {
                Ok(None) => r == Ok::<Option<StreamData>, OperationError>(None),
                Ok(Some(rest)) => r is Ok && r->Ok_0 is Some && r->Ok_0->0@ == rest,
                Err(e) => r == Err::<Option<StreamData>, OperationError>(e),
            },
            final(con)@.wf(),
    {
        self.0.send_payload(con, data, eof)
    }

    /// Sends paged payload data.
    ///
    /// Returns `false` where the caller has to wait for send capacity. What could
    /// not be sent is left in `data`.
    pub fn send_pages(&self, con: &mut Connection, data: &mut StreamData, eof: bool) -> (r: Result<
        bool,
        OperationError,
    >)
        requires
            old(con)@.wf(),
            old(con)@.has(self.0),
            old(data)@.len() <= usize::MAX,
        ensures
            (final(con)@, payload_result(r, final(data)@)) == old(con)@.send_payload(
                self.0,
                old(data)@,
                eof,
            ),
            final(con)@.wf(),
    {
        self.0.send_pages(con, data, eof)
    }

    /// Sends trailers and closes the local side of the stream.
    pub fn send_trailers(&self, con: &mut Connection, map: HeaderMap)
        requires
            old(con)@.wf(),
            old(con)@.has(self.0),
        ensures
            final(con)@ == old(con)@.send_trailers(self.0, http::header_fields(map)),
            final(con)@.wf(),
    {
        self.0.send_trailers(con, map);
    }

    /// Resets the stream with the specified reason.
    ///
    /// Returns `true` if the stream state is updated and a `Reset` frame
    /// has been sent to the peer.
    pub fn reset(&self, con: &mut Connection, reason: Reason) -> (r: bool)
        requires
            old(con)@.wf(),
            old(con)@.has(self.0),
        ensures
            final(con)@ == old(con)@.reset(self.0, reason),
            final(con)@.wf(),
            r == !old(con)@.slot(self.0).closed(),
    {
        self.0.reset(con, reason)
    }

    /// Configures the connection to disconnect after this stream is dropped.
    pub fn disconnect_on_drop(&self, con: &mut Connection)
        requires
            old(con)@.wf(),
            old(con)@.has(self.0),
        ensures
            final(con)@ == old(con)@.with_slot(
                self.0,
                StreamState {
                    flags: StreamFlags {
                        disconnect_on_drop: true,
                        ..old(con)@.slot(self.0).flags
                    },
                    ..old(con)@.slot(self.0)
                },
            ),
            final(con)@.wf(),
    {
        self.0.disconnect_on_drop(con);
    }

    /// Polls for available send capacity.
    pub fn poll_send_capacity(&self, con: &mut Connection) -> (r: Result<
        Option<WindowSize>,
        OperationError,
    >)
        requires
            old(con)@.wf(),
            old(con)@.has(self.0),
        ensures
            (final(con)@, r) == old(con)@.poll_capacity(self.0),
            final(con)@.wf(),
    {
        self.0.poll_send_capacity(con)
    }
}

/// Receiving half of a client-initiated HTTP/2 stream.
///
/// Giving up an unfinished receive stream resets it with `CANCEL`.
#[derive(Debug)]
pub struct RecvStream(pub StreamRef);

impl RecvStream {
    /// Returns the stream identifier.
    pub fn id(&self, con: &Connection) -> (r: StreamId)
        requires
            con@.has(self.0),
        ensures
            r == con@.slot(self.0).id,
    {
        self.0.id(con)
    }

    /// Returns the underlying stream reference.
    pub fn stream(&self) -> (r: StreamRef)
        ensures
            r == self.0,
    {
        self.0
    }

    /// Gives the receiving half up, and with it the messages that have not been
    /// received and their capacity.
    pub fn release(self, con: &mut Connection, storage: &mut InflightStorage)
        requires
            old(con)@.wf(),
            old(con)@.has(self.0),
            old(storage)@.dom().contains(old(con)@.slot(self.0).id.0) ==> {
                let item = old(storage)@[old(con)@.slot(self.0).id.0];
                &&& old(con)@.has(item.stream)
                &&& capacity_within(old(con)@, item)
            },
        ensures
            ({
                let id = old(con)@.slot(self.0).id.0;
                let left = old(con)@.give_up_recv(self.0);
                &&& final(storage)@ == old(storage)@.remove(id)
                &&& final(con)@ == if old(storage)@.dom().contains(id) {
                    left.give_up(old(storage)@[id].stream).drop_messages(
                        old(storage)@[id].messages,
                    )
                } else {
                    left
                }
            }),
            final(con)@.wf(),
    {
        let ghost before = storage@;
        let id = self.0.id(con);
        if !self.0.recv_state(con).is_closed() {
            cancel(con, self.0);
        }
        match storage.inflight.remove(&id.0) {
            Some(item) => {
                assert(storage@ =~= before.remove(id.0));
                let stream = item.stream.0;
                if con.slot(stream).flags.reset_on_drop {
                    stream.reset(con, Reason::CANCEL);
                }
                drop_inflight(con, item);
            },
            None => {
                assert(storage@ =~= before.remove(id.0));
            },
        }
    }
}

/// The capacity that messages hold.
pub open spec fn capacity_sum(messages: Seq<MessageView>) -> int
    decreases messages.len(),
{
    if messages.len() == 0 {
        0
    } else {
        let rest = capacity_sum(messages.skip(1));
        match messages[0].kind {
            KindView::Data(_, cap) => cap.size + rest,
            _ => rest,
        }
    }
}

/// The capacity that waits to be received is capacity of the stream, and no more
/// than the stream has given out.
pub open spec fn capacity_within(con: ConView, item: InflightView) -> bool {
    &&& forall|k: int|
        0 <= k < item.messages.len() ==> ((#[trigger] item.messages[k]).kind matches KindView::Data(
            _,
            cap,
        ) ==> cap.stream == item.stream)
    &&& capacity_sum(item.messages) <= con.slot(item.stream).recv_size
}

impl ConView {
    /// Messages are given up, first to last, and their capacity with them.
    pub open spec fn drop_messages(self, messages: Seq<MessageView>) -> ConView
        decreases messages.len(),
    {
        if messages.len() == 0 {
            self
        } else {
            match messages[0].kind {
                KindView::Data(_, cap) => self.released(
                    cap.stream,
                    cap.size as int,
                ).drop_messages(messages.skip(1)),
                _ => self.drop_messages(messages.skip(1)),
            }
        }
    }
}

/// Gives the messages of a stream up.
fn drop_inflight(con: &mut Connection, inflight: Inflight)
    requires
        old(con)@.wf(),
        old(con)@.has(inflight@.stream),
        capacity_within(old(con)@, inflight@),
    ensures
        final(con)@ == old(con)@.drop_messages(inflight@.messages),
        final(con)@.wf(),
{
    let ghost stream = inflight@.stream;
    let ghost all = inflight@.messages;
    let mut item = inflight;
    loop
        invariant
            all == inflight@.messages,
            con@.wf(),
            con@.has(stream),
            item@.stream == stream,
            capacity_within(con@, item@),
            con@.drop_messages(item@.messages) == old(con)@.drop_messages(all),
        decreases item@.messages.len(),
    {
        let ghost queue = item@.messages;
        proof {
            capacity_sum_positive(queue.skip(1));
        }
        match item.pop() {
            None => {
                return;
            },
            Some(msg) => {
                assert(queue[0] == msg@);
                assert forall|k: int| 0 <= k < item@.messages.len() implies ((
                #[trigger] item@.messages[k]).kind matches KindView::Data(_, cap) ==> cap.stream
                    == stream) by {
                    assert(item@.messages[k] == queue[k + 1]);
                }
                if let MessageKind::Data(_, cap) = msg.kind {
                    cap.release(con);
                }
            },
        }
    }
}

proof fn capacity_sum_positive(messages: Seq<MessageView>)
    ensures
        capacity_sum(messages) >= 0,
    decreases messages.len(),
{
    if messages.len() > 0 {
        capacity_sum_positive(messages.skip(1));
    }
}

// ===== Laws =====

/// Messages are received in the order in which they came: one that came behind
/// others is received after all of them.
pub proof fn messages_in_order(queue: Seq<MessageView>, msg: MessageView)
    ensures
        queue.push(msg)[0] == if queue.len() > 0 {
            queue[0]
        } else {
            msg
        },
        queue.len() > 0 ==> queue.push(msg).skip(1) == queue.skip(1).push(msg),
{
    if queue.len() > 0 {
        assert(queue.push(msg).skip(1) =~= queue.skip(1).push(msg));
    }
}

/// Sending can continue after the receiving half of a stream is given up, where
/// all has been received: the stream stays as it is.
pub proof fn send_outlives_recv(con: ConView, s: StreamRef)
    requires
        con.has(s),
        con.slot(s).recv is Closed,
        !con.slot(s).flags.reset_on_drop,
    ensures
        con.give_up_recv(s).give_up(s) == con,
{
}

} // verus!
