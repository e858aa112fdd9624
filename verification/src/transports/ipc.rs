//! JSON-RPC over a local socket: one connection carries the requests, the responses to them in
//! any order, and the notifications of subscriptions.
use std::collections::BTreeMap;

use futures::channel::oneshot::Canceled;
use serde_json::Value;
use tokio::sync::mpsc::error::SendError;
use vstd::prelude::*;

use crate::api::SubscriptionId;
use crate::channels::{canceled_debug, canceled_display, send_error_debug};
use crate::error::{result_view, results_view, Error, ErrorView};
use crate::helpers::{
    build_request, method_call_view, open_response, opened, result_of_output,
    to_result_from_output, to_string,
};
use crate::ids::{nth_id, RequestIds};
use crate::json::{
    call_of, notification_from_value, notification_of_value, request_json, response_from_value,
    response_of_value,
};
use crate::rpc::{
    outputs_view, request_of_id, Id, Notification, NotificationView, Output, OutputView, Request,
    RequestView, Response,
};
use crate::subscriptions::{notice, notice_of, Subscriptions};
use crate::text::join;
use crate::RequestId;

pub mod laws;
pub mod stream;

use self::stream::{is_delimited, is_settled, read_values, rest_of, values_in};

verus! {

broadcast use {
    vstd::std_specs::btree::group_btree_axioms,
    vstd::laws_cmp::group_laws_cmp,
};

/// Something that came from the node and is for nobody.
#[derive(Debug)]
pub enum Unclaimed {
    /// A response that nobody waits for, or whose id is no number.
    Response(Output),
    /// The news of a subscription that has no receiver.
    Notice { id: SubscriptionId, value: Value },
    /// A notification that names no subscription.
    Notification,
    /// What is neither a response nor a notification.
    Other,
}

/// The contents of an [`Unclaimed`].
pub enum UnclaimedView {
    Response(OutputView),
    Notice { id: Seq<char>, value: Value },
    Notification,
    Other,
}

impl View for Unclaimed {
    type V = UnclaimedView;

    open spec fn view(&self) -> UnclaimedView {
        match self {
            Unclaimed::Response(output) => UnclaimedView::Response(output@),
            Unclaimed::Notice { id, value } => UnclaimedView::Notice { id: id@, value: *value },
            Unclaimed::Notification => UnclaimedView::Notification,
            Unclaimed::Other => UnclaimedView::Other,
        }
    }
}

/// Something that came from the node, and for whom it is.
#[derive(Debug)]
pub enum Delivery<P> {
    /// The response to a request, for whoever waits for it.
    Answer { to: P, output: Output },
    /// The news of a subscription, for its receiver.
    Notice { id: SubscriptionId, value: Value },
    /// What is for nobody.
    Unclaimed(Unclaimed),
}

/// The contents of a [`Delivery`].
pub enum DeliveryView<P> {
    Answer { to: P, output: OutputView },
    Notice { id: Seq<char>, value: Value },
    Unclaimed(UnclaimedView),
}

impl<P> View for Delivery<P> {
    type V = DeliveryView<P>;

    open spec fn view(&self) -> DeliveryView<P> {
        match self {
            Delivery::Answer { to, output } => DeliveryView::Answer { to: *to, output: output@ },
            Delivery::Notice { id, value } => DeliveryView::Notice { id: id@, value: *value },
            Delivery::Unclaimed(unclaimed) => DeliveryView::Unclaimed(unclaimed@),
        }
    }
}

/// The contents of a list of deliveries.
pub open spec fn deliveries_view<P>(deliveries: Seq<Delivery<P>>) -> Seq<DeliveryView<P>> {
    deliveries.map_values(|d: Delivery<P>| d@)
}

/// Who still waits for a response, and what is delivered.
pub struct Dispatch<P> {
    pub pending: Map<RequestId, P>,
    pub deliveries: Seq<DeliveryView<P>>,
}

/// Whether a response answers a request that is waited for.
pub open spec fn is_awaited<P>(pending: Map<RequestId, P>, output: OutputView) -> bool {
    match request_of_id(output.id) {
        Some(id) => pending.contains_key(id),
        None => false,
    }
}

/// One response goes to whoever waits for it, who then waits no longer. One that nobody waits
/// for goes to nobody.
pub open spec fn output_dispatched<P>(pending: Map<RequestId, P>, output: OutputView) -> Dispatch<
    P,
> {
    if is_awaited(pending, output) {
        let id = request_of_id(output.id)->Some_0;
        Dispatch {
            pending: pending.remove(id),
            deliveries: seq![DeliveryView::Answer { to: pending[id], output }],
        }
    } else {
        Dispatch {
            pending,
            deliveries: seq![DeliveryView::Unclaimed(UnclaimedView::Response(output))],
        }
    }
}

/// Hands a response to whoever waits for it.
pub fn respond_output<P>(pending: &mut BTreeMap<RequestId, P>, output: Output) -> (r: Delivery<P>)
    ensures
        final(pending)@ == output_dispatched(old(pending)@, output@).pending,
        seq![r@] == output_dispatched(old(pending)@, output@).deliveries,
{
    let id: RequestId = match output.id() {
        Id::Num(number) => *number as RequestId,
        _ => {
            return Delivery::Unclaimed(Unclaimed::Response(output));
        },
    };
    match pending.remove(&id) {
        Some(to) => Delivery::Answer { to, output },
        None => {
            assert(old(pending)@.remove(id) =~= old(pending)@);
            Delivery::Unclaimed(Unclaimed::Response(output))
        },
    }
}

/// The responses of a list are handed out one by one.
pub open spec fn outputs_dispatched<P>(
    pending: Map<RequestId, P>,
    outputs: Seq<OutputView>,
) -> Dispatch<P>
    decreases outputs.len(),
{
    if outputs.len() == 0 {
        Dispatch { pending, deliveries: seq![] }
    } else {
        let before = outputs_dispatched(pending, outputs.drop_last());
        let last = output_dispatched(before.pending, outputs.last());
        Dispatch {
            pending: last.pending,
            deliveries: before.deliveries + last.deliveries,
        }
    }
}

/// Hands out the responses that came together.
pub fn respond<P>(pending: &mut BTreeMap<RequestId, P>, response: Response) -> (r: Vec<Delivery<P>>)
    ensures
        ({
            let all = outputs_dispatched(old(pending)@, response@.outputs());
            &&& final(pending)@ == all.pending
            &&& deliveries_view(r@) == all.deliveries
        }),
{
    let ghost first = pending@;
    let ghost all = response@.outputs();
    let outputs = response.into_outputs();
    let mut r: Vec<Delivery<P>> = Vec::new();
    for output in iter: outputs
        invariant
            outputs_view(iter.seq()) == all,
            pending@ == outputs_dispatched(first, all.take(iter.index() as int)).pending,
            deliveries_view(r@) == outputs_dispatched(
                first,
                all.take(iter.index() as int),
            ).deliveries,
    {
        let ghost k = iter.index() as int;
        let ghost before = r@;
        proof {
            assert(output == iter.seq()[k]);
            assert(all[k] == output@);
            assert(all.take(k + 1).drop_last() =~= all.take(k));
            assert(all.take(k + 1).last() == output@);
        }
        let delivery = respond_output(pending, output);
        r.push(delivery);
        assert(deliveries_view(r@) =~= deliveries_view(before) + seq![delivery@]);
    }
    assert(all.take(all.len() as int) =~= all);
    r
}

/// What a notification brings: the news for a subscription, where it names one that has a
/// receiver.
pub open spec fn noticed<P>(
    subscribed: Set<Seq<char>>,
    notification: NotificationView,
) -> DeliveryView<P> {
    match notice_of(notification) {
        Some((id, value)) => if subscribed.contains(id) {
            DeliveryView::Notice { id, value }
        } else {
            DeliveryView::Unclaimed(UnclaimedView::Notice { id, value })
        },
        None => DeliveryView::Unclaimed(UnclaimedView::Notification),
    }
}

/// Finds the subscription that a notification is for.
pub fn notify<P, S>(subscriptions: &Subscriptions<S>, notification: &Notification) -> (r: Delivery<
    P,
>)
    requires
        subscriptions.well_formed(),
    ensures
        r@ == noticed::<P>(subscriptions@.dom(), notification@),
{
    match notice(notification) {
        Some((id, value)) => match subscriptions.get(&id) {
            Some(_) => Delivery::Notice { id, value },
            None => Delivery::Unclaimed(Unclaimed::Notice { id, value }),
        },
        None => Delivery::Unclaimed(Unclaimed::Notification),
    }
}

/// A JSON value is a notification, or a response, or neither.
pub open spec fn value_dispatched<P>(
    pending: Map<RequestId, P>,
    subscribed: Set<Seq<char>>,
    value: Value,
) -> Dispatch<P> {
    match notification_of_value(value) {
        Some(notification) => Dispatch {
            pending,
            deliveries: seq![noticed(subscribed, notification)],
        },
        None => match response_of_value(value) {
            Some(response) => outputs_dispatched(pending, opened(response).outputs()),
            None => Dispatch {
                pending,
                deliveries: seq![DeliveryView::Unclaimed(UnclaimedView::Other)],
            },
        },
    }
}

/// JSON values are dealt with one by one.
pub open spec fn values_dispatched<P>(
    pending: Map<RequestId, P>,
    subscribed: Set<Seq<char>>,
    values: Seq<Value>,
) -> Dispatch<P>
    decreases values.len(),
{
    if values.len() == 0 {
        Dispatch { pending, deliveries: seq![] }
    } else {
        let before = values_dispatched(pending, subscribed, values.drop_last());
        let last = value_dispatched(before.pending, subscribed, values.last());
        Dispatch {
            pending: last.pending,
            deliveries: before.deliveries + last.deliveries,
        }
    }
}

/// A request on its way: its id, the call, and who waits for the response.
pub type TransportRequest<P> = (RequestId, jsonrpc_core::Call, P);

/// What a client asks of the connection.
#[derive(Debug)]
pub enum TransportMessage<P, S> {
    /// Send one call.
    Single(TransportRequest<P>),
    /// Send a batch.
    Batch(Vec<TransportRequest<P>>),
    /// Pass the notifications of a subscription on.
    Subscribe(SubscriptionId, S),
    /// Pass the notifications of a subscription on no longer.
    Unsubscribe(SubscriptionId),
}

/// What is to be written to the socket, and for which requests.
#[derive(Debug, PartialEq, Eq)]
pub struct Write {
    pub ids: Vec<RequestId>,
    pub text: String,
}

/// What follows from reading the socket.
#[derive(Debug)]
pub enum Step<P> {
    /// Deliver, and go on.
    Deliver(Vec<Delivery<P>>),
    /// Stop, with an error.
    Fail(Error),
    /// Stop: the node has closed the connection.
    Stop,
}

/// The requests of a list wait for their responses. Of two with one id, the later one does.
pub open spec fn registered<P>(
    pending: Map<RequestId, P>,
    requests: Seq<TransportRequest<P>>,
) -> Map<RequestId, P>
    decreases requests.len(),
{
    if requests.len() == 0 {
        pending
    } else {
        registered(pending, requests.drop_last()).insert(requests.last().0, requests.last().2)
    }
}

/// The ids of a list of requests.
pub open spec fn ids_of<P>(requests: Seq<TransportRequest<P>>) -> Seq<RequestId> {
    requests.map_values(|r: TransportRequest<P>| r.0)
}

/// The calls of a list of requests.
pub open spec fn calls_of<P>(requests: Seq<TransportRequest<P>>) -> Seq<jsonrpc_core::Call> {
    requests.map_values(|r: TransportRequest<P>| r.1)
}

/// The client's end of a connection to a node.
#[derive(Debug)]
pub struct Server<P, S> {
    pending: BTreeMap<RequestId, P>,
    subscriptions: Subscriptions<S>,
    read_buffer: Vec<u8>,
    closed: bool,
}

/// The contents of a [`Server`].
pub struct ServerView<P, S> {
    /// Who waits for the response to which request.
    pub pending: Map<RequestId, P>,
    /// Who receives the notifications of which subscription.
    pub subscriptions: Map<Seq<char>, S>,
    /// What was read but does not make up a JSON value yet.
    pub unread: Seq<u8>,
    /// Whether no more messages will come from the client.
    pub closed: bool,
}

impl<P, S> View for Server<P, S> {
    type V = ServerView<P, S>;

    closed spec fn view(&self) -> ServerView<P, S> {
        ServerView {
            pending: self.pending@,
            subscriptions: self.subscriptions@,
            unread: self.read_buffer@,
            closed: self.closed,
        }
    }
}

impl<P, S> ServerView<P, S> {
    /// Whether there is anything left to do.
    pub open spec fn is_running(self) -> bool {
        !self.closed || !self.pending.is_empty()
    }

    /// What a message of the client makes of the connection.
    pub open spec fn told(self, message: Option<TransportMessage<P, S>>) -> ServerView<P, S> {
        match message {
            None => ServerView { closed: true, ..self },
            Some(TransportMessage::Single(request)) => ServerView {
                pending: self.pending.insert(request.0, request.2),
                ..self
            },
            Some(TransportMessage::Batch(requests)) => ServerView {
                pending: registered(self.pending, requests@),
                ..self
            },
            Some(TransportMessage::Subscribe(id, sink)) => ServerView {
                subscriptions: self.subscriptions.insert(id@, sink),
                ..self
            },
            Some(TransportMessage::Unsubscribe(id)) => ServerView {
                subscriptions: self.subscriptions.remove(id@),
                ..self
            },
        }
    }

    /// What the outcome of a write makes of the connection: nobody waits for what was not sent.
    pub open spec fn written(self, ids: Seq<RequestId>, sent: bool) -> ServerView<P, S> {
        if sent {
            self
        } else {
            ServerView { pending: self.pending.remove_keys(ids.to_set()), ..self }
        }
    }

    /// What bytes from the node bring.
    pub open spec fn dispatch(self, bytes: Seq<u8>) -> Dispatch<P> {
        values_dispatched(
            self.pending,
            self.subscriptions.dom(),
            values_in(self.unread + bytes),
        )
    }

    /// What bytes from the node make of the connection.
    pub open spec fn heard(self, bytes: Seq<u8>) -> ServerView<P, S> {
        ServerView {
            pending: self.dispatch(bytes).pending,
            unread: rest_of(self.unread + bytes),
            ..self
        }
    }

    /// Whether it makes no difference that bytes from the node come in two parts.
    pub open spec fn is_same_in_parts(self, first: Seq<u8>, second: Seq<u8>) -> bool {
        &&& self.heard(first + second) == self.heard(first).heard(second)
        &&& self.dispatch(first + second).deliveries == self.dispatch(first).deliveries
            + self.heard(first).dispatch(second).deliveries
    }

    /// Whether it makes no difference that bytes from the node are cut behind these, as long as
    /// all that comes is strings, arrays and objects, and whether what is left then goes on so.
    pub open spec fn adds_up_after(self, bytes: Seq<u8>) -> bool {
        forall|more: Seq<u8>|
            #[trigger] self.is_delimited_with(bytes, more) ==> self.is_same_in_parts(bytes, more)
                && is_delimited(self.heard(bytes).unread + more)
    }

    /// Whether all that is there, these bytes and more, is strings, arrays and objects.
    pub open spec fn is_delimited_with(self, bytes: Seq<u8>, more: Seq<u8>) -> bool {
        is_delimited(self.unread + (bytes + more))
    }

    /// What bytes from the node that come in pieces make of the connection.
    pub open spec fn heard_in_pieces(self, pieces: Seq<Seq<u8>>) -> ServerView<P, S>
        decreases pieces.len(),
    {
        if pieces.len() == 0 {
            self
        } else {
            self.heard_in_pieces(pieces.drop_last()).heard(pieces.last())
        }
    }

    /// What bytes from the node that come in pieces bring.
    pub open spec fn delivered_in_pieces(self, pieces: Seq<Seq<u8>>) -> Seq<DeliveryView<P>>
        decreases pieces.len(),
    {
        if pieces.len() == 0 {
            seq![]
        } else {
            self.delivered_in_pieces(pieces.drop_last()) + self.heard_in_pieces(
                pieces.drop_last(),
            ).dispatch(pieces.last()).deliveries
        }
    }

    /// Whether pieces add up one after the other. `Server::on_bytes` shows it of each piece, and
    /// `Server::on_pieces` of all of them, whatever they hold.
    pub open spec fn adds_up(self, pieces: Seq<Seq<u8>>) -> bool {
        forall|k: int|
            0 <= k < pieces.len() ==> (#[trigger] self.heard_in_pieces(
                pieces.take(k),
            )).adds_up_after(pieces[k])
    }

    /// Whether bytes from the node may be cut behind these, whatever follows.
    pub open spec fn can_be_cut_after(self, bytes: Seq<u8>) -> bool {
        forall|more: Seq<u8>| #[trigger] self.is_same_in_parts(bytes, more)
    }
}

/// The contents of some pieces.
pub open spec fn pieces_view(pieces: Seq<Vec<u8>>) -> Seq<Seq<u8>> {
    pieces.map_values(|p: Vec<u8>| p@)
}

/// What pieces come to together.
pub open spec fn joined(pieces: Seq<Seq<u8>>) -> Seq<u8>
    decreases pieces.len(),
{
    if pieces.len() == 0 {
        seq![]
    } else {
        joined(pieces.drop_last()) + pieces.last()
    }
}

/// What a message of the client has written to the socket: the requests and their JSON text.
pub open spec fn write_for<P, S>(message: Option<TransportMessage<P, S>>) -> Option<
    (Seq<RequestId>, Seq<char>),
> {
    match message {
        Some(TransportMessage::Single(request)) => Some(
            (seq![request.0], request_json(RequestView::Single(request.1))),
        ),
        Some(TransportMessage::Batch(requests)) => Some(
            (ids_of(requests@), request_json(RequestView::Batch(calls_of(requests@)))),
        ),
        _ => None,
    }
}

impl<P, S> Server<P, S> {
    /// No subscription has two receivers.
    pub closed spec fn well_formed(&self) -> bool {
        self.subscriptions.well_formed()
    }

    /// A fresh connection.
    pub fn new() -> (server: Server<P, S>)
        ensures
            server.well_formed(),
            server@ == (ServerView::<P, S> {
                pending: Map::empty(),
                subscriptions: Map::empty(),
                unread: seq![],
                closed: false,
            }),
    {
        Server {
            pending: BTreeMap::new(),
            subscriptions: Subscriptions::new(),
            read_buffer: Vec::new(),
            closed: false,
        }
    }

    /// Whether there is anything left to do: messages may still come from the client, or somebody
    /// still waits for a response.
    pub fn is_running(&self) -> (r: bool)
        ensures
            r == self@.is_running(),
    {
        !self.closed || !self.pending.is_empty()
    }

    /// The receiver of a subscription.
    pub fn receiver(&self, id: &SubscriptionId) -> (r: Option<&S>)
        requires
            self.well_formed(),
        ensures
            match r {
                Some(sink) => self@.subscriptions.contains_key(id@) && *sink
                    == self@.subscriptions[id@],
                None => !self@.subscriptions.contains_key(id@),
            },
    {
        self.subscriptions.get(id)
    }

    /// Whether somebody waits for the response to a request.
    pub fn awaits(&self, id: RequestId) -> (r: bool)
        ensures
            r == self@.pending.contains_key(id),
    {
        self.pending.contains_key(&id)
    }

    /// Takes a message of the client, or notes that no more will come. What is to be written
    /// then, if anything, is given back.
    pub fn on_message(&mut self, message: Option<TransportMessage<P, S>>) -> (r: Option<Write>)
        requires
            old(self).well_formed(),
        ensures
            final(self).well_formed(),
            final(self)@ == old(self)@.told(message),
            write_for(message) == match r {
                Some(write) => Some((write.ids@, write.text@)),
                None => None,
            },
    {
        match message {
            None => {
                self.closed = true;
                None
            },
            Some(TransportMessage::Subscribe(id, sink)) => {
                let _replaced = self.subscriptions.insert(id, sink);
                None
            },
            Some(TransportMessage::Unsubscribe(id)) => {
                let _removed = self.subscriptions.remove(&id);
                None
            },
            Some(TransportMessage::Single((id, call, to))) => {
                let _replaced = self.pending.insert(id, to);
                let mut ids: Vec<RequestId> = Vec::new();
                ids.push(id);
                assert(ids@ =~= seq![id]);
                Some(Write { ids, text: to_string(&Request::Single(call)) })
            },
            Some(TransportMessage::Batch(requests)) => {
                let (ids, calls) = register(&mut self.pending, requests);
                Some(Write { ids, text: to_string(&Request::Batch(calls)) })
            },
        }
    }

    /// Notes whether a write went through. If it did not, nobody waits for its requests any
    /// longer.
    pub fn on_written(&mut self, ids: &[RequestId], sent: bool)
        requires
            old(self).well_formed(),
        ensures
            final(self).well_formed(),
            final(self)@ == old(self)@.written(ids@, sent),
    {
        if !sent {
            forget(&mut self.pending, ids);
        }
    }

    /// Takes what was read from the socket: bytes, an error, or that there is nothing more.
    pub fn on_read(&mut self, read: Option<Result<Vec<u8>, String>>) -> (r: Step<P>)
        requires
            old(self).well_formed(),
        ensures
            final(self).well_formed(),
            match read {
                Some(Ok(bytes)) => {
                    &&& r matches Step::Deliver(deliveries)
                    &&& deliveries_view(deliveries@) == old(self)@.dispatch(bytes@).deliveries
                    &&& final(self)@ == old(self)@.heard(bytes@)
                    &&& is_settled(old(self)@.unread + bytes@) ==> old(self)@.can_be_cut_after(
                        bytes@,
                    )
                    &&& old(self)@.adds_up_after(bytes@)
                },
                Some(Err(text)) => {
                    &&& r matches Step::Fail(e)
                    &&& e@ == ErrorView::message(text@)
                    &&& final(self)@ == old(self)@
                },
                None => r is Stop && final(self)@ == old(self)@,
            },
    {
        match read {
            Some(Ok(bytes)) => Step::Deliver(self.on_bytes(bytes.as_slice())),
            Some(Err(text)) => Step::Fail(Error::message(text)),
            None => Step::Stop,
        }
    }

    /// Takes bytes from the node: deals with each JSON value that is there as a whole, and keeps
    /// the rest until more bytes come.
    pub fn on_bytes(&mut self, bytes: &[u8]) -> (r: Vec<Delivery<P>>)
        requires
            old(self).well_formed(),
        ensures
            final(self).well_formed(),
            deliveries_view(r@) == old(self)@.dispatch(bytes@).deliveries,
            final(self)@ == old(self)@.heard(bytes@),
            is_settled(old(self)@.unread + bytes@) ==> old(self)@.can_be_cut_after(bytes@),
            old(self)@.adds_up_after(bytes@),
    {
        let ghost before = self@;
        let ghost all = before.unread + bytes@;
        let ghost subscribed = before.subscriptions.dom();
        self.read_buffer.extend_from_slice(bytes);
        assert(self.read_buffer@ =~= all);
        let (values, read) = read_values(self.read_buffer.as_slice());
        let ghost read_now = values@;
        let rest = self.read_buffer.split_off(read);
        self.read_buffer = rest;
        assert(self.read_buffer@ =~= rest_of(all));
        let mut r: Vec<Delivery<P>> = Vec::new();
        for value in iter: values
            invariant
                iter.seq() == read_now,
                self.well_formed(),
                self.read_buffer@ == rest_of(all),
                self.subscriptions@ == before.subscriptions,
                subscribed == before.subscriptions.dom(),
                self.closed == before.closed,
                self.pending@ == values_dispatched(
                    before.pending,
                    subscribed,
                    read_now.take(iter.index() as int),
                ).pending,
                deliveries_view(r@) == values_dispatched(
                    before.pending,
                    subscribed,
                    read_now.take(iter.index() as int),
                ).deliveries,
        {
            let ghost k = iter.index() as int;
            let ghost earlier = r@;
            proof {
                assert(read_now.take(k + 1).drop_last() =~= read_now.take(k));
                assert(read_now.take(k + 1).last() == value);
            }
            let mut brought = self.on_value(value);
            let ghost now = brought@;
            r.append(&mut brought);
            assert(deliveries_view(r@) =~= deliveries_view(earlier) + deliveries_view(now));
        }
        proof {
            assert(read_now.take(read_now.len() as int) =~= read_now);
            if is_settled(all) {
                assert forall|more: Seq<u8>| before.is_same_in_parts(bytes@, more) by {
                    assert(before.unread + (bytes@ + more) =~= all + more);
                    laws::values_can_be_dealt_with_in_parts(
                        before.pending,
                        subscribed,
                        values_in(all),
                        values_in(rest_of(all) + more),
                    );
                }
            }
            assert forall|more: Seq<u8>| #[trigger]
                before.is_delimited_with(bytes@, more) implies before.is_same_in_parts(bytes@, more)
                && is_delimited(before.heard(bytes@).unread + more) by {
                assert(before.unread + (bytes@ + more) =~= all + more);
            }
        }
        r
    }

    /// Takes bytes from the node that come in pieces. As long as they are strings, arrays and
    /// objects it makes no difference where they are cut: only all of them together count.
    pub fn on_pieces(&mut self, pieces: &[Vec<u8>]) -> (r: Vec<Delivery<P>>)
        requires
            old(self).well_formed(),
        ensures
            final(self).well_formed(),
            deliveries_view(r@) == old(self)@.delivered_in_pieces(pieces_view(pieces@)),
            final(self)@ == old(self)@.heard_in_pieces(pieces_view(pieces@)),
            old(self)@.adds_up(pieces_view(pieces@)),
            pieces@.len() > 0 && is_delimited(old(self)@.unread + joined(pieces_view(pieces@))) ==> {
                &&& deliveries_view(r@) == old(self)@.dispatch(
                    joined(pieces_view(pieces@)),
                ).deliveries
                &&& final(self)@ == old(self)@.heard(joined(pieces_view(pieces@)))
            },
    {
        let ghost before = self@;
        let ghost all = pieces_view(pieces@);
        let mut r: Vec<Delivery<P>> = Vec::new();
        let mut i: usize = 0;
        while i < pieces.len()
            invariant
                i <= pieces@.len(),
                all == pieces_view(pieces@),
                self.well_formed(),
                self@ == before.heard_in_pieces(all.take(i as int)),
                deliveries_view(r@) == before.delivered_in_pieces(all.take(i as int)),
                forall|k: int|
                    0 <= k < i ==> (#[trigger] before.heard_in_pieces(
                        all.take(k),
                    )).adds_up_after(all[k]),
            decreases pieces@.len() - i,
        {
            let ghost earlier = r@;
            proof {
                assert(all.take(i + 1).drop_last() =~= all.take(i as int));
                assert(all.take(i + 1).last() == pieces@[i as int]@);
            }
            let mut brought = self.on_bytes(pieces[i].as_slice());
            let ghost now = brought@;
            r.append(&mut brought);
            assert(deliveries_view(r@) =~= deliveries_view(earlier) + deliveries_view(now));
            i = i + 1;
        }
        proof {
            assert(all.take(all.len() as int) =~= all);
            if all.len() > 0 && is_delimited(before.unread + joined(all)) {
                laws::pieces_come_to_the_same_as_the_whole(before, all);
            }
        }
        r
    }

    /// Deals with one JSON value from the node.
    fn on_value(&mut self, value: Value) -> (r: Vec<Delivery<P>>)
        requires
            old(self).well_formed(),
        ensures
            final(self).well_formed(),
            ({
                let dispatch = value_dispatched(
                    old(self)@.pending,
                    old(self)@.subscriptions.dom(),
                    value,
                );
                &&& deliveries_view(r@) == dispatch.deliveries
                &&& final(self)@ == (ServerView { pending: dispatch.pending, ..old(self)@ })
            }),
    {
        let mut r: Vec<Delivery<P>> = Vec::new();
        if let Some(notification) = notification_from_value(value.clone()) {
            let delivery = notify(&self.subscriptions, &notification);
            r.push(delivery);
            assert(deliveries_view(r@) =~= seq![delivery@]);
            return r;
        }
        match response_from_value(value) {
            Some(response) => respond(&mut self.pending, open_response(response)),
            None => {
                r.push(Delivery::Unclaimed(Unclaimed::Other));
                assert(deliveries_view(r@) =~= seq![DeliveryView::Unclaimed(UnclaimedView::Other)]);
                r
            },
        }
    }
}

/// Has the requests of a list wait for their responses.
fn register<P>(
    pending: &mut BTreeMap<RequestId, P>,
    requests: Vec<TransportRequest<P>>,
) -> (r: (Vec<RequestId>, Vec<jsonrpc_core::Call>))
    ensures
        final(pending)@ == registered(old(pending)@, requests@),
        r.0@ == ids_of(requests@),
        r.1@ == calls_of(requests@),
{
    let ghost first = pending@;
    let ghost all = requests@;
    let mut ids: Vec<RequestId> = Vec::new();
    let mut calls: Vec<jsonrpc_core::Call> = Vec::new();
    for request in iter: requests
        invariant
            iter.seq() == all,
            ids@.len() == iter.index(),
            calls@.len() == iter.index(),
            forall|i: int| 0 <= i < ids@.len() ==> #[trigger] ids@[i] == all[i].0,
            forall|i: int| 0 <= i < calls@.len() ==> #[trigger] calls@[i] == all[i].1,
            pending@ == registered(first, all.take(iter.index() as int)),
    {
        let ghost k = iter.index() as int;
        proof {
            assert(all.take(k + 1).drop_last() =~= all.take(k));
            assert(all.take(k + 1).last() == request);
        }
        let (id, call, to) = request;
        ids.push(id);
        calls.push(call);
        let _replaced = pending.insert(id, to);
    }
    proof {
        assert(all.take(all.len() as int) =~= all);
        assert(ids@ =~= ids_of(all));
        assert(calls@ =~= calls_of(all));
    }
    (ids, calls)
}

/// Has nobody wait for the responses to these requests any longer.
fn forget<P>(pending: &mut BTreeMap<RequestId, P>, ids: &[RequestId])
    ensures
        final(pending)@ == old(pending)@.remove_keys(ids@.to_set()),
{
    let ghost first = pending@;
    let mut i: usize = 0;
    assert(first.remove_keys(ids@.take(0).to_set()) =~= first);
    while i < ids.len()
        invariant
            i <= ids@.len(),
            pending@ == first.remove_keys(ids@.take(i as int).to_set()),
        decreases ids@.len() - i,
    {
        let id: RequestId = ids[i];
        let _removed = pending.remove(&id);
        proof {
            let now = ids@.take(i + 1);
            let old_ids = ids@.take(i as int);
            assert(now.drop_last() =~= old_ids);
            assert forall|k: RequestId| now.to_set().contains(k) <==> old_ids.to_set().contains(k)
                || k == id by {
                assert(now.contains(k) <==> now.to_set().contains(k));
                assert(old_ids.contains(k) <==> old_ids.to_set().contains(k));
                if now.contains(k) {
                    let j = choose|j: int| 0 <= j < now.len() && now[j] == k;
                    if j < i {
                        assert(old_ids[j] == k);
                    }
                }
                if old_ids.contains(k) {
                    let j = choose|j: int| 0 <= j < old_ids.len() && old_ids[j] == k;
                    assert(now[j] == k);
                }
                assert(now[i as int] == id);
            }
            assert(pending@ =~= first.remove_keys(now.to_set()));
        }
        i = i + 1;
    }
    assert(ids@.take(ids@.len() as int) =~= ids@);
}

impl<P, S> From<SendError<TransportMessage<P, S>>> for Error {
    /// The error for a message that could not be handed to the connection.
    fn from(error: SendError<TransportMessage<P, S>>) -> (e: Error)
        ensures
            e@ == ErrorView::message("Send Error: "@ + "SendError { .. }"@),
    {
        Error::message(join("Send Error: ", send_error_debug(&error).as_str()))
    }
}

impl<P, S> vstd::std_specs::convert::FromSpecImpl<SendError<TransportMessage<P, S>>> for Error {
    open spec fn obeys_from_spec() -> bool {
        false
    }

    open spec fn from_spec(error: SendError<TransportMessage<P, S>>) -> Error {
        arbitrary()
    }
}

/// The response that came for a request, if one came.
pub open spec fn received(answer: Result<Output, Canceled>) -> Option<OutputView> {
    match answer {
        Ok(output) => Some(output@),
        Err(_) => None,
    }
}

/// What comes of a single call: what its response says, or that none will come.
pub open spec fn single_settled(answer: Option<OutputView>) -> Result<Value, ErrorView> {
    match answer {
        Some(output) => result_of_output(output),
        None => Err(ErrorView::message("oneshot canceled"@)),
    }
}

/// What comes of a single call: what its response says, or that none will come, or that the call
/// could not be handed to the connection.
pub fn settle_single(sent: Result<Result<Output, Canceled>, Error>) -> (r: Result<Value, Error>)
    ensures
        result_view(r) == match sent {
            Ok(answer) => single_settled(received(answer)),
            Err(e) => Err(e@),
        },
{
    match sent {
        Ok(Ok(output)) => to_result_from_output(output),
        Ok(Err(canceled)) => Err(Error::message(canceled_display(&canceled))),
        Err(e) => Err(e),
    }
}

/// What comes of one call of a batch: what its response says, or that none will come.
pub open spec fn part_settled(answer: Option<OutputView>) -> Result<Value, ErrorView> {
    match answer {
        Some(output) => result_of_output(output),
        None => Err(ErrorView::message("Canceled: "@ + "Canceled"@)),
    }
}

/// What comes of a batch: for each call what its response says or that none will come, or that
/// the batch could not be handed to the connection.
pub fn settle_batch(sent: Result<Vec<Result<Output, Canceled>>, Error>) -> (r: Result<
    Vec<Result<Value, Error>>,
    Error,
>)
    ensures
        match (sent, r) {
            (Ok(answers), Ok(results)) => results_view(results@) == answers@.map_values(
                |a: Result<Output, Canceled>| part_settled(received(a)),
            ),
            (Err(e), Err(error)) => error@ == e@,
            _ => false,
        },
{
    let answers = match sent {
        Ok(answers) => answers,
        Err(e) => {
            return Err(e);
        },
    };
    let ghost all = answers@;
    let mut results: Vec<Result<Value, Error>> = Vec::new();
    for answer in iter: answers
        invariant
            iter.seq() == all,
            results@.len() == iter.index(),
            forall|i: int|
                0 <= i < results@.len() ==> result_view(#[trigger] results@[i]) == part_settled(
                    received(all[i]),
                ),
    {
        let result = match answer {
            Ok(output) => to_result_from_output(output),
            Err(canceled) => Err(
                Error::message(join("Canceled: ", canceled_debug(&canceled).as_str())),
            ),
        };
        results.push(result);
    }
    assert(results_view(results@) =~= all.map_values(
        |a: Result<Output, Canceled>| part_settled(received(a)),
    ));
    Ok(results)
}

/// A client of a node behind a local socket.
#[derive(Debug)]
pub struct Ipc {
    ids: RequestIds,
}

impl Ipc {
    /// The id that is handed out next.
    pub closed spec fn upcoming(&self) -> RequestId {
        self.ids.upcoming()
    }

    /// A client that has sent nothing yet, and the socket, if that could be connected to.
    pub fn new<T>(connected: Result<T, String>) -> (r: Result<(Ipc, T), Error>)
        ensures
            match (connected, r) {
                (Ok(stream), Ok((ipc, kept))) => ipc.upcoming() == 1 && kept == stream,
                (Err(text), Err(e)) => e@ == ErrorView::message(text@),
                _ => false,
            },
    {
        match connected {
            Ok(stream) => Ok((Ipc::with_stream(), stream)),
            Err(text) => Err(Error::message(text)),
        }
    }

    /// A client that has sent nothing yet.
    pub fn with_stream() -> (ipc: Ipc)
        ensures
            ipc.upcoming() == 1,
    {
        Ipc { ids: RequestIds::starting_at(1) }
    }

    /// Builds the call of `method` under the next request id.
    pub fn prepare(&mut self, method: &str, params: Vec<Value>) -> (r: (
        RequestId,
        jsonrpc_core::Call,
    ))
        ensures
            r.0 == old(self).upcoming(),
            r.1 == call_of(method_call_view(r.0, method@, params@)),
            final(self).upcoming() == nth_id(r.0, 1),
    {
        let id: RequestId = self.ids.next_id();
        (id, build_request(id, method, params))
    }
}

/// The message that sends a batch, with who waits for the response to each call.
pub fn batch_message<P, S>(
    requests: Vec<(RequestId, jsonrpc_core::Call)>,
    waiting: Vec<P>,
) -> (r: TransportMessage<P, S>)
    requires
        requests@.len() == waiting@.len(),
    ensures
        match r {
            TransportMessage::Batch(batch) => batch@ == Seq::new(
                requests@.len(),
                |i: int| (requests@[i].0, requests@[i].1, waiting@[i]),
            ),
            _ => false,
        },
{
    let ghost all = requests@;
    let ghost who = waiting@;
    let ghost n = who.len() as int;
    let mut waiting = waiting;
    let mut reversed: Vec<P> = Vec::new();
    while waiting.len() > 0
        invariant
            waiting@.len() + reversed@.len() == n,
            waiting@ == who.take(waiting@.len() as int),
            n == who.len(),
            forall|i: int| 0 <= i < reversed@.len() ==> #[trigger] reversed@[i] == who[n - 1 - i],
        decreases waiting@.len(),
    {
        if let Some(to) = waiting.pop() {
            reversed.push(to);
        }
    }
    let mut batch: Vec<TransportRequest<P>> = Vec::new();
    for request in iter: requests
        invariant
            iter.seq() == all,
            n == who.len() == all.len(),
            batch@.len() == iter.index(),
            reversed@.len() == n - iter.index(),
            forall|i: int| 0 <= i < reversed@.len() ==> #[trigger] reversed@[i] == who[n - 1 - i],
            forall|i: int|
                0 <= i < batch@.len() ==> #[trigger] batch@[i] == (all[i].0, all[i].1, who[i]),
    {
        let (id, call) = request;
        if let Some(to) = reversed.pop() {
            batch.push((id, call, to));
        }
    }
    TransportMessage::Batch(batch)
}

} // verus!
