//! What holds of a connection to a node, whatever is sent and received over it.
use std::collections::BTreeMap;

use futures::channel::oneshot::Canceled;
use serde_json::Value;
use tokio::sync::mpsc::error::SendError;
use vstd::prelude::*;

use super::stream::{is_delimited, read_values};
use super::{
    batch_message, deliveries_view, ids_of, joined, noticed, notify, output_dispatched,
    outputs_dispatched, pieces_view, registered, respond, respond_output, settle_batch,
    settle_single, value_dispatched, values_dispatched, write_for, Delivery, DeliveryView, Ipc,
    Server, ServerView, Step, TransportMessage, TransportRequest, Unclaimed, UnclaimedView, Write,
};
use crate::api::SubscriptionId;
use crate::error::{results_view, Error};
use crate::helpers::{method_call_view, opened};
use crate::json::{
    call_of, first_value, notification_of_value, output_parts, request_json, response_of_value,
    RawResponseView,
};
use crate::laws::{carries, has_news, says, tells};
use crate::rpc::{
    request_of_id, IdView, MethodCallView, Notification, NotificationView, Output, OutputView,
    ParamsView, RequestView, Response, Version,
};
use crate::subscriptions::{notice_of, Subscriptions};
use crate::RequestId;

verus! {

/// It makes no difference whether JSON values are dealt with all at once or in two parts.
pub proof fn values_can_be_dealt_with_in_parts<P>(
    pending: Map<RequestId, P>,
    subscribed: Set<Seq<char>>,
    first: Seq<Value>,
    second: Seq<Value>,
)
    ensures
        ({
            let before = values_dispatched(pending, subscribed, first);
            let after = values_dispatched(before.pending, subscribed, second);
            let whole = values_dispatched(pending, subscribed, first + second);
            &&& whole.pending == after.pending
            &&& whole.deliveries == before.deliveries + after.deliveries
        }),
    decreases second.len(),
{
    if second.len() == 0 {
        assert(first + second =~= first);
    } else {
        values_can_be_dealt_with_in_parts(pending, subscribed, first, second.drop_last());
        assert((first + second).drop_last() =~= first + second.drop_last());
        assert((first + second).last() == second.last());
        let before = values_dispatched(pending, subscribed, first);
        let middle = values_dispatched(before.pending, subscribed, second.drop_last());
        let last = value_dispatched(middle.pending, subscribed, second.last());
        assert((before.deliveries + middle.deliveries) + last.deliveries =~= before.deliveries + (
        middle.deliveries + last.deliveries));
    }
}

/// Taking pieces one after the other, and then more, is taking all of it at once.
proof fn lemma_pieces_then_more<P, S>(
    server: ServerView<P, S>,
    pieces: Seq<Seq<u8>>,
    more: Seq<u8>,
)
    requires
        server.adds_up(pieces),
        is_delimited(server.unread + (joined(pieces) + more)),
    ensures
        ({
            let taken = server.heard_in_pieces(pieces);
            &&& taken.heard(more) == server.heard(joined(pieces) + more)
            &&& server.delivered_in_pieces(pieces) + taken.dispatch(more).deliveries
                == server.dispatch(joined(pieces) + more).deliveries
            &&& is_delimited(taken.unread + more)
        }),
    decreases pieces.len(),
{
    if pieces.len() == 0 {
        assert(joined(pieces) + more =~= more);
        assert(server.delivered_in_pieces(pieces) + server.dispatch(more).deliveries
            =~= server.dispatch(more).deliveries);
    } else {
        let earlier = pieces.drop_last();
        let last = pieces.last();
        let n = earlier.len() as int;
        let before = server.heard_in_pieces(earlier);
        assert(pieces.take(n) =~= earlier);
        assert(before.adds_up_after(pieces[n]));
        assert forall|k: int| 0 <= k < n implies (#[trigger] server.heard_in_pieces(
            earlier.take(k),
        )).adds_up_after(earlier[k]) by {
            assert(earlier.take(k) =~= pieces.take(k));
            assert(server.heard_in_pieces(pieces.take(k)).adds_up_after(pieces[k]));
        }
        assert(joined(pieces) + more =~= joined(earlier) + (last + more));
        lemma_pieces_then_more(server, earlier, last + more);
        assert(before.is_delimited_with(last, more));
        assert(server.delivered_in_pieces(earlier) + (before.dispatch(last).deliveries
            + before.heard(last).dispatch(more).deliveries) =~= (server.delivered_in_pieces(earlier)
            + before.dispatch(last).deliveries) + before.heard(last).dispatch(more).deliveries);
    }
}

/// Bytes from the node that come in pieces come to the same as all of them at once, as long as
/// they are strings, arrays and objects.
pub proof fn pieces_come_to_the_same_as_the_whole<P, S>(
    server: ServerView<P, S>,
    pieces: Seq<Seq<u8>>,
)
    requires
        pieces.len() > 0,
        server.adds_up(pieces),
        is_delimited(server.unread + joined(pieces)),
    ensures
        server.heard_in_pieces(pieces) == server.heard(joined(pieces)),
        server.delivered_in_pieces(pieces) == server.dispatch(joined(pieces)).deliveries,
{
    let earlier = pieces.drop_last();
    assert forall|k: int| 0 <= k < earlier.len() implies (#[trigger] server.heard_in_pieces(
        earlier.take(k),
    )).adds_up_after(earlier[k]) by {
        assert(earlier.take(k) =~= pieces.take(k));
        assert(server.heard_in_pieces(pieces.take(k)).adds_up_after(pieces[k]));
    }
    lemma_pieces_then_more(server, earlier, pieces.last());
}

/// Where bytes from the node are cut makes no difference, as long as they are strings, arrays and
/// objects: the same bytes cut in two ways bring the same, to the same, in the same order, and
/// leave the same requests waiting.
pub proof fn where_bytes_are_cut_does_not_matter<P, S>(
    server: ServerView<P, S>,
    pieces: Seq<Seq<u8>>,
    others: Seq<Seq<u8>>,
)
    requires
        pieces.len() > 0,
        others.len() > 0,
        joined(pieces) == joined(others),
        is_delimited(server.unread + joined(pieces)),
        server.adds_up(pieces),
        server.adds_up(others),
    ensures
        server.heard_in_pieces(pieces) == server.heard_in_pieces(others),
        server.delivered_in_pieces(pieces) == server.delivered_in_pieces(others),
{
    pieces_come_to_the_same_as_the_whole(server, pieces);
    pieces_come_to_the_same_as_the_whole(server, others);
}

/// A response that carries the id of a call finds the request of that call.
pub proof fn an_id_finds_its_request(id: RequestId, method: Seq<char>, params: Seq<Value>)
    ensures
        request_of_id(method_call_view(id, method, params).id) == Some(id),
{
}

/// The first response of a list that answers a request.
pub open spec fn first_answer(outputs: Seq<OutputView>, id: RequestId) -> Option<OutputView>
    decreases outputs.len(),
{
    if outputs.len() == 0 {
        None
    } else if first_answer(outputs.drop_last(), id) is Some {
        first_answer(outputs.drop_last(), id)
    } else if request_of_id(outputs.last().id) == Some(id) {
        Some(outputs.last())
    } else {
        None
    }
}

/// A request has a response in a list if and only if some response there carries its id.
pub proof fn a_request_is_answered_by_its_id(outputs: Seq<OutputView>, id: RequestId)
    ensures
        first_answer(outputs, id) is Some <==> exists|i: int|
            0 <= i < outputs.len() && request_of_id(#[trigger] outputs[i].id) == Some(id),
        match first_answer(outputs, id) {
            Some(output) => request_of_id(output.id) == Some(id) && outputs.contains(output),
            None => true,
        },
    decreases outputs.len(),
{
    if outputs.len() > 0 {
        let earlier = outputs.drop_last();
        a_request_is_answered_by_its_id(earlier, id);
        if first_answer(earlier, id) is Some {
            let i = choose|i: int|
                0 <= i < earlier.len() && request_of_id(#[trigger] earlier[i].id) == Some(id);
            assert(outputs[i].id == earlier[i].id);
            let j = choose|j: int|
                0 <= j < earlier.len() && earlier[j] == first_answer(earlier, id)->Some_0;
            assert(outputs[j] == earlier[j]);
        } else {
            assert(forall|i: int| 0 <= i < earlier.len() ==> #[trigger] outputs[i] == earlier[i]);
            assert(outputs[outputs.len() - 1] == outputs.last());
        }
    }
}

/// Whoever waits for the response to a request gets the first response with its id, and waits no
/// longer. Who gets none goes on waiting, whatever else comes: responses without a number, or to
/// requests that nobody sent, do no harm.
pub proof fn each_request_gets_its_first_response<P>(
    pending: Map<RequestId, P>,
    outputs: Seq<OutputView>,
    id: RequestId,
)
    requires
        pending.contains_key(id),
    ensures
        ({
            let all = outputs_dispatched(pending, outputs);
            match first_answer(outputs, id) {
                Some(output) => {
                    &&& !all.pending.contains_key(id)
                    &&& all.deliveries.contains(DeliveryView::Answer { to: pending[id], output })
                },
                None => all.pending.contains_key(id) && all.pending[id] == pending[id],
            }
        }),
    decreases outputs.len(),
{
    if outputs.len() > 0 {
        let earlier = outputs.drop_last();
        let last = outputs.last();
        each_request_gets_its_first_response(pending, earlier, id);
        let before = outputs_dispatched(pending, earlier);
        let step = output_dispatched(before.pending, last);
        let all = outputs_dispatched(pending, outputs);
        match first_answer(earlier, id) {
            Some(output) => {
                let answer = DeliveryView::Answer { to: pending[id], output };
                let i = choose|i: int|
                    0 <= i < before.deliveries.len() && before.deliveries[i] == answer;
                assert(all.deliveries[i] == answer);
            },
            None => {
                if request_of_id(last.id) == Some(id) {
                    assert(all.deliveries.last() == step.deliveries[0]);
                    assert(all.deliveries[all.deliveries.len() - 1] == step.deliveries[0]);
                }
            },
        }
    }
}

/// Nobody starts to wait because of a response.
pub proof fn nobody_starts_to_wait<P>(
    pending: Map<RequestId, P>,
    outputs: Seq<OutputView>,
    id: RequestId,
)
    requires
        !pending.contains_key(id),
    ensures
        !outputs_dispatched(pending, outputs).pending.contains_key(id),
    decreases outputs.len(),
{
    if outputs.len() > 0 {
        nobody_starts_to_wait(pending, outputs.drop_last(), id);
    }
}

/// Whether something that is delivered is the response to a request, for whoever waits for it.
pub open spec fn answers<P>(
    delivery: DeliveryView<P>,
    pending: Map<RequestId, P>,
    id: RequestId,
) -> bool {
    match delivery {
        DeliveryView::Answer { to, output } => pending.contains_key(id) && to == pending[id]
            && request_of_id(output.id) == Some(id),
        _ => false,
    }
}

/// Every response of a list that is delivered to somebody is the response to a request that they
/// waited for.
pub proof fn responses_reach_only_their_requests<P>(
    pending: Map<RequestId, P>,
    outputs: Seq<OutputView>,
    i: int,
)
    requires
        0 <= i < outputs_dispatched(pending, outputs).deliveries.len(),
        outputs_dispatched(pending, outputs).deliveries[i] is Answer,
    ensures
        exists|id: RequestId|
            answers(outputs_dispatched(pending, outputs).deliveries[i], pending, id)
                && !outputs_dispatched(pending, outputs).pending.contains_key(id),
    decreases outputs.len(),
{
    let earlier = outputs.drop_last();
    let last = outputs.last();
    let before = outputs_dispatched(pending, earlier);
    let all = outputs_dispatched(pending, outputs);
    if i < before.deliveries.len() {
        responses_reach_only_their_requests(pending, earlier, i);
        let id = choose|id: RequestId|
            answers(before.deliveries[i], pending, id) && !before.pending.contains_key(id);
        assert(all.deliveries[i] == before.deliveries[i]);
        assert(answers(all.deliveries[i], pending, id) && !all.pending.contains_key(id));
    } else {
        let id = request_of_id(last.id)->Some_0;
        lemma_still_waiting(pending, earlier, id);
        assert(all.deliveries[i] == output_dispatched(before.pending, last).deliveries[0]);
        assert(answers(all.deliveries[i], pending, id) && !all.pending.contains_key(id));
    }
}

/// Each response of a list is delivered, in the order of the list: to whoever waits for it, or to
/// nobody.
pub proof fn each_response_is_accounted_for<P>(
    pending: Map<RequestId, P>,
    outputs: Seq<OutputView>,
    i: int,
)
    requires
        0 <= i < outputs_dispatched(pending, outputs).deliveries.len(),
    ensures
        outputs_dispatched(pending, outputs).deliveries.len() == outputs.len(),
        match outputs_dispatched(pending, outputs).deliveries[i] {
            DeliveryView::Answer { output, .. } => output == outputs[i],
            DeliveryView::Unclaimed(UnclaimedView::Response(output)) => output == outputs[i],
            _ => false,
        },
    decreases outputs.len(),
{
    lemma_one_delivery_each(pending, outputs);
    let earlier = outputs.drop_last();
    lemma_one_delivery_each(pending, earlier);
    let before = outputs_dispatched(pending, earlier);
    if i < before.deliveries.len() {
        each_response_is_accounted_for(pending, earlier, i);
    }
}

proof fn lemma_one_delivery_each<P>(pending: Map<RequestId, P>, outputs: Seq<OutputView>)
    ensures
        outputs_dispatched(pending, outputs).deliveries.len() == outputs.len(),
    decreases outputs.len(),
{
    if outputs.len() > 0 {
        lemma_one_delivery_each(pending, outputs.drop_last());
    }
}

/// Who still waits has waited before, for the same request.
proof fn lemma_still_waiting<P>(
    pending: Map<RequestId, P>,
    outputs: Seq<OutputView>,
    id: RequestId,
)
    ensures
        outputs_dispatched(pending, outputs).pending.contains_key(id) ==> pending.contains_key(id)
            && outputs_dispatched(pending, outputs).pending[id] == pending[id],
    decreases outputs.len(),
{
    if outputs.len() > 0 {
        lemma_still_waiting(pending, outputs.drop_last(), id);
    }
}

/// No request is answered twice.
pub proof fn no_request_is_answered_twice<P>(
    pending: Map<RequestId, P>,
    outputs: Seq<OutputView>,
    i: int,
    j: int,
    id: RequestId,
)
    requires
        0 <= i < j < outputs_dispatched(pending, outputs).deliveries.len(),
        answers(outputs_dispatched(pending, outputs).deliveries[i], pending, id),
    ensures
        !answers(outputs_dispatched(pending, outputs).deliveries[j], pending, id),
    decreases outputs.len(),
{
    let earlier = outputs.drop_last();
    let before = outputs_dispatched(pending, earlier);
    let all = outputs_dispatched(pending, outputs);
    assert(all.deliveries[i] == before.deliveries[i]);
    if j < before.deliveries.len() {
        assert(all.deliveries[j] == before.deliveries[j]);
        no_request_is_answered_twice(pending, earlier, i, j, id);
    } else {
        responses_reach_only_their_requests(pending, earlier, i);
        let other = choose|other: RequestId|
            answers(before.deliveries[i], pending, other) && !before.pending.contains_key(other);
        assert(other == id);
    }
}

/// A call that was handed to the connection gets the response with its id.
pub proof fn a_call_gets_its_response<P, S>(
    server: ServerView<P, S>,
    request: TransportRequest<P>,
    output: OutputView,
)
    requires
        request_of_id(output.id) == Some(request.0),
    ensures
        ({
            let told = server.told(Some(TransportMessage::Single(request)));
            let all = outputs_dispatched(told.pending, seq![output]);
            &&& all.deliveries == seq![DeliveryView::Answer { to: request.2, output }]
            &&& all.pending == server.pending.remove(request.0)
        }),
{
    let told = server.told(Some(TransportMessage::Single(request)));
    let all = outputs_dispatched(told.pending, seq![output]);
    let none = Seq::<OutputView>::empty();
    assert(seq![output].drop_last() =~= none);
    assert(outputs_dispatched(told.pending, none).pending == told.pending);
    assert(all.deliveries =~= seq![DeliveryView::Answer { to: request.2, output }]);
    assert(all.pending =~= server.pending.remove(request.0));
}

/// Each call of a batch waits for its own response, if no two have the same id. Requests that are
/// not in the batch go on waiting as they did.
pub proof fn each_call_of_a_batch_waits<P>(
    pending: Map<RequestId, P>,
    requests: Seq<TransportRequest<P>>,
)
    requires
        ids_of(requests).no_duplicates(),
    ensures
        forall|i: int|
            0 <= i < requests.len() ==> registered(pending, requests).contains_key(
                (#[trigger] requests[i]).0,
            ) && registered(pending, requests)[requests[i].0] == requests[i].2,
        forall|id: RequestId|
            !ids_of(requests).contains(id) ==> (#[trigger] registered(
                pending,
                requests,
            ).contains_key(id) <==> pending.contains_key(id)) && (pending.contains_key(id)
                ==> registered(pending, requests)[id] == pending[id]),
    decreases requests.len(),
{
    if requests.len() > 0 {
        let earlier = requests.drop_last();
        assert(ids_of(earlier) =~= ids_of(requests).drop_last());
        each_call_of_a_batch_waits(pending, earlier);
        let n = requests.len() - 1;
        assert forall|i: int| 0 <= i < requests.len() implies registered(
            pending,
            requests,
        ).contains_key((#[trigger] requests[i]).0) && registered(pending, requests)[requests[i].0]
            == requests[i].2 by {
            if i < n {
                assert(earlier[i] == requests[i]);
                assert(ids_of(requests)[i] != ids_of(requests)[n]);
            }
        }
        assert forall|id: RequestId| !ids_of(requests).contains(id) implies (
        #[trigger] registered(pending, requests).contains_key(id) <==> pending.contains_key(id))
            && (pending.contains_key(id) ==> registered(pending, requests)[id] == pending[id]) by {
            assert(ids_of(requests)[n] == requests.last().0);
            if ids_of(earlier).contains(id) {
                let i = choose|i: int| 0 <= i < n && ids_of(earlier)[i] == id;
                assert(ids_of(requests)[i] == id);
            }
            assert(registered(pending, earlier).contains_key(id) <==> pending.contains_key(id));
        }
    }
}

proof fn lemma_forgetting_what_was_registered<P>(
    pending: Map<RequestId, P>,
    requests: Seq<TransportRequest<P>>,
    ids: Set<RequestId>,
)
    requires
        forall|i: int| 0 <= i < requests.len() ==> ids.contains((#[trigger] requests[i]).0),
    ensures
        registered(pending, requests).remove_keys(ids) == pending.remove_keys(ids),
    decreases requests.len(),
{
    if requests.len() > 0 {
        let earlier = requests.drop_last();
        assert(forall|i: int| 0 <= i < earlier.len() ==> earlier[i] == requests[i]);
        lemma_forgetting_what_was_registered(pending, earlier, ids);
        assert(ids.contains(requests[requests.len() - 1].0));
        assert(registered(pending, requests).remove_keys(ids) =~= registered(
            pending,
            earlier,
        ).remove_keys(ids));
    }
}

/// Nobody waits for a request whose write failed. Apart from that the write leaves no trace, and
/// where the requests were new it leaves none at all.
pub proof fn a_failed_write_is_undone<P, S>(
    server: ServerView<P, S>,
    message: TransportMessage<P, S>,
)
    requires
        write_for(Some(message)) is Some,
    ensures
        ({
            let ids = write_for(Some(message))->Some_0.0;
            let after = server.told(Some(message)).written(ids, false);
            &&& after == (ServerView {
                pending: server.pending.remove_keys(ids.to_set()),
                ..server
            })
            &&& (forall|i: int| 0 <= i < ids.len() ==> !server.pending.contains_key(ids[i]))
                ==> after == server
        }),
{
    let ids = write_for(Some(message))->Some_0.0;
    let after = server.told(Some(message)).written(ids, false);
    assert forall|id: RequestId| ids.to_set().contains(id) <==> ids.contains(id) by {}
    match message {
        TransportMessage::Single(request) => {
            assert(ids[0] == request.0);
            assert(ids.contains(request.0));
            assert(after.pending =~= server.pending.remove_keys(ids.to_set()));
        },
        TransportMessage::Batch(requests) => {
            assert forall|i: int| 0 <= i < requests@.len() implies ids.to_set().contains(
                (#[trigger] requests@[i]).0,
            ) by {
                assert(ids[i] == requests@[i].0);
            }
            lemma_forgetting_what_was_registered(server.pending, requests@, ids.to_set());
        },
        _ => {},
    }
    if forall|i: int| 0 <= i < ids.len() ==> !server.pending.contains_key(ids[i]) {
        assert(server.pending.remove_keys(ids.to_set()) =~= server.pending);
    }
}

/// A connection whose client is gone goes on until each request that was sent has its response,
/// and no longer.
pub proof fn closing_waits_for_the_responses<P, S>(server: ServerView<P, S>, bytes: Seq<u8>)
    ensures
        server.told(None).pending == server.pending,
        server.told(None).is_running() <==> !server.pending.is_empty(),
        server.told(None).heard(bytes).is_running() <==> !server.dispatch(bytes).pending.is_empty(),
{
    assert(server.told(None).dispatch(bytes) == server.dispatch(bytes));
}

/// The receiver of a subscription gets its notifications, until the client has them stop.
pub proof fn notifications_reach_their_subscription<P, S>(
    server: ServerView<P, S>,
    id: SubscriptionId,
    sink: S,
    notification: NotificationView,
    value: Value,
)
    requires
        notice_of(notification) == Some((id@, value)),
    ensures
        ({
            let on = server.told(Some(TransportMessage::Subscribe(id, sink)));
            let off = on.told(Some(TransportMessage::Unsubscribe(id)));
            &&& on.subscriptions[id@] == sink
            &&& noticed::<P>(on.subscriptions.dom(), notification) == DeliveryView::<P>::Notice {
                id: id@,
                value,
            }
            &&& noticed::<P>(off.subscriptions.dom(), notification) == DeliveryView::<
                P,
            >::Unclaimed(UnclaimedView::Notice { id: id@, value })
        }),
{
}

/// A notification answers no request, and the responses are no notifications.
pub proof fn notifications_answer_no_request<P>(
    pending: Map<RequestId, P>,
    subscribed: Set<Seq<char>>,
    value: Value,
    i: int,
)
    requires
        0 <= i < value_dispatched(pending, subscribed, value).deliveries.len(),
    ensures
        ({
            let all = value_dispatched(pending, subscribed, value);
            match notification_of_value(value) {
                Some(_) => all.pending == pending && !(all.deliveries[i] is Answer),
                None => !(all.deliveries[i] is Notice),
            }
        }),
{
    if notification_of_value(value) is None {
        if let Some(response) = response_of_value(value) {
            each_response_is_accounted_for(pending, opened(response).outputs(), i);
        }
    }
}

proof fn lemma_still_waiting_after_values<P>(
    pending: Map<RequestId, P>,
    subscribed: Set<Seq<char>>,
    values: Seq<Value>,
    id: RequestId,
)
    ensures
        values_dispatched(pending, subscribed, values).pending.contains_key(id)
            ==> pending.contains_key(id) && values_dispatched(
            pending,
            subscribed,
            values,
        ).pending[id] == pending[id],
    decreases values.len(),
{
    if values.len() > 0 {
        lemma_still_waiting_after_values(pending, subscribed, values.drop_last(), id);
        let before = values_dispatched(pending, subscribed, values.drop_last());
        match response_of_value(values.last()) {
            Some(response) => {
                lemma_still_waiting(before.pending, opened(response).outputs(), id);
            },
            None => {},
        }
    }
}

/// Everything that is delivered as a response is one, to a request that somebody waited for, and
/// goes to whoever did.
pub proof fn responses_go_only_to_who_waits<P>(
    pending: Map<RequestId, P>,
    subscribed: Set<Seq<char>>,
    values: Seq<Value>,
    i: int,
)
    requires
        0 <= i < values_dispatched(pending, subscribed, values).deliveries.len(),
        values_dispatched(pending, subscribed, values).deliveries[i] is Answer,
    ensures
        exists|id: RequestId|
            answers(values_dispatched(pending, subscribed, values).deliveries[i], pending, id)
                && !values_dispatched(pending, subscribed, values).pending.contains_key(id),
    decreases values.len(),
{
    let earlier = values.drop_last();
    let before = values_dispatched(pending, subscribed, earlier);
    let step = value_dispatched(before.pending, subscribed, values.last());
    let all = values_dispatched(pending, subscribed, values);
    if i < before.deliveries.len() {
        assert(all.deliveries[i] == before.deliveries[i]);
        responses_go_only_to_who_waits(pending, subscribed, earlier, i);
        let id = choose|id: RequestId|
            answers(before.deliveries[i], pending, id) && !before.pending.contains_key(id);
        if let Some(response) = response_of_value(values.last()) {
            nobody_starts_to_wait(before.pending, opened(response).outputs(), id);
        }
        assert(answers(all.deliveries[i], pending, id) && !all.pending.contains_key(id));
    } else {
        let k = i - before.deliveries.len();
        assert(all.deliveries[i] == step.deliveries[k]);
        notifications_answer_no_request(before.pending, subscribed, values.last(), k);
        let outputs = opened(response_of_value(values.last())->Some_0).outputs();
        responses_reach_only_their_requests(before.pending, outputs, k);
        let id = choose|id: RequestId|
            answers(step.deliveries[k], before.pending, id) && !step.pending.contains_key(id);
        lemma_still_waiting_after_values(pending, subscribed, earlier, id);
        assert(answers(all.deliveries[i], pending, id) && !all.pending.contains_key(id));
    }
}

/// Nobody gets two responses to one request.
pub proof fn nobody_gets_two_responses<P>(
    pending: Map<RequestId, P>,
    subscribed: Set<Seq<char>>,
    values: Seq<Value>,
    i: int,
    j: int,
    id: RequestId,
)
    requires
        0 <= i < j < values_dispatched(pending, subscribed, values).deliveries.len(),
        answers(values_dispatched(pending, subscribed, values).deliveries[i], pending, id),
    ensures
        !answers(values_dispatched(pending, subscribed, values).deliveries[j], pending, id),
    decreases values.len(),
{
    let earlier = values.drop_last();
    let before = values_dispatched(pending, subscribed, earlier);
    let step = value_dispatched(before.pending, subscribed, values.last());
    let all = values_dispatched(pending, subscribed, values);
    let n = before.deliveries.len();
    if answers(all.deliveries[j], pending, id) {
        if j < n {
            assert(all.deliveries[i] == before.deliveries[i]);
            assert(all.deliveries[j] == before.deliveries[j]);
            nobody_gets_two_responses(pending, subscribed, earlier, i, j, id);
        } else {
            assert(all.deliveries[j] == step.deliveries[j - n]);
            notifications_answer_no_request(before.pending, subscribed, values.last(), j - n);
            let outputs = opened(response_of_value(values.last())->Some_0).outputs();
            responses_reach_only_their_requests(before.pending, outputs, j - n);
            let other = choose|other: RequestId|
                answers(step.deliveries[j - n], before.pending, other)
                    && !step.pending.contains_key(other);
            assert(other == id);
            if i < n {
                assert(all.deliveries[i] == before.deliveries[i]);
                responses_go_only_to_who_waits(pending, subscribed, earlier, i);
                let first = choose|first: RequestId|
                    answers(before.deliveries[i], pending, first) && !before.pending.contains_key(
                        first,
                    );
                assert(first == id);
            } else {
                assert(all.deliveries[i] == step.deliveries[i - n]);
                lemma_still_waiting_after_values(pending, subscribed, earlier, id);
                assert(answers(step.deliveries[i - n], before.pending, id));
                no_request_is_answered_twice(before.pending, outputs, i - n, j - n, id);
            }
        }
    }
}

/// No request is lost: whoever waits for its response goes on waiting until it is delivered.
pub proof fn a_request_waits_until_it_is_answered<P>(
    pending: Map<RequestId, P>,
    subscribed: Set<Seq<char>>,
    values: Seq<Value>,
    id: RequestId,
)
    requires
        pending.contains_key(id),
    ensures
        ({
            let all = values_dispatched(pending, subscribed, values);
            if all.pending.contains_key(id) {
                all.pending[id] == pending[id]
            } else {
                exists|i: int|
                    0 <= i < all.deliveries.len() && answers(
                        #[trigger] all.deliveries[i],
                        pending,
                        id,
                    )
            }
        }),
    decreases values.len(),
{
    if values.len() > 0 {
        let earlier = values.drop_last();
        let before = values_dispatched(pending, subscribed, earlier);
        let step = value_dispatched(before.pending, subscribed, values.last());
        let all = values_dispatched(pending, subscribed, values);
        let n = before.deliveries.len();
        a_request_waits_until_it_is_answered(pending, subscribed, earlier, id);
        lemma_still_waiting_after_values(pending, subscribed, values, id);
        if !all.pending.contains_key(id) {
            if before.pending.contains_key(id) {
                let outputs = opened(response_of_value(values.last())->Some_0).outputs();
                each_request_gets_its_first_response(before.pending, outputs, id);
                a_request_is_answered_by_its_id(outputs, id);
                let answer = DeliveryView::Answer {
                    to: before.pending[id],
                    output: first_answer(outputs, id)->Some_0,
                };
                let k = choose|k: int|
                    0 <= k < step.deliveries.len() && step.deliveries[k] == answer;
                assert(all.deliveries[n + k] == answer);
                assert(answers(all.deliveries[n + k], pending, id));
            } else {
                let i = choose|i: int|
                    0 <= i < before.deliveries.len() && answers(
                        #[trigger] before.deliveries[i],
                        pending,
                        id,
                    );
                assert(all.deliveries[i] == before.deliveries[i]);
            }
        }
    }
}

/// The contents of what is delivered are all of it.
pub proof fn the_contents_of_a_delivery_are_all_of_it<P>(delivery: Delivery<P>)
    ensures
        match delivery {
            Delivery::Answer { to, output } => delivery@ == (DeliveryView::Answer {
                to,
                output: output@,
            }),
            Delivery::Notice { id, value } => delivery@ == (DeliveryView::<P>::Notice {
                id: id@,
                value,
            }),
            Delivery::Unclaimed(Unclaimed::Response(output)) => delivery@ == DeliveryView::<
                P,
            >::Unclaimed(UnclaimedView::Response(output@)),
            Delivery::Unclaimed(Unclaimed::Notice { id, value }) => delivery@ == DeliveryView::<
                P,
            >::Unclaimed(UnclaimedView::Notice { id: id@, value }),
            Delivery::Unclaimed(Unclaimed::Notification) => delivery@ == DeliveryView::<
                P,
            >::Unclaimed(UnclaimedView::Notification),
            Delivery::Unclaimed(Unclaimed::Other) => delivery@ == DeliveryView::<P>::Unclaimed(
                UnclaimedView::Other,
            ),
        },
{
}

/// Whether two maps agree everywhere but at one key.
pub open spec fn agree_but_at<K, V>(before: Map<K, V>, after: Map<K, V>, key: K) -> bool {
    forall|other: K|
        other != key ==> (#[trigger] after.dom().contains(other) <==> before.dom().contains(other))
            && (before.dom().contains(other) ==> after[other] == before[other])
}

/// A response goes to whoever waits for the request whose number it carries, success or failure,
/// and they wait no longer. Everybody else goes on waiting, and one that nobody waits for is for
/// nobody.
pub proof fn a_response_goes_to_who_waits_for_it<P>(
    pending: &mut BTreeMap<RequestId, P>,
    output: Output,
    r: Delivery<P>,
)
    requires
        call_ensures(respond_output::<P>, (pending, output), r),
    ensures
        forall|id: RequestId| #[trigger]
            carries(output@.id, id) && old(pending)@.dom().contains(id) ==> {
                &&& r matches Delivery::Answer { to, output: given } && to == old(pending)@[id]
                    && given@ == output@
                &&& !final(pending)@.dom().contains(id)
                &&& agree_but_at(old(pending)@, final(pending)@, id)
            },
        (forall|id: RequestId| #[trigger]
            carries(output@.id, id) ==> !old(pending)@.dom().contains(id)) ==> {
            &&& r matches Delivery::Unclaimed(Unclaimed::Response(given)) && given@ == output@
            &&& final(pending)@ == old(pending)@
        },
{
    assert(seq![r@][0] == output_dispatched(old(pending)@, output@).deliveries[0]);
    if output@.id is Num {
        assert(carries(output@.id, output@.id->Num_0 as RequestId));
    }
}

/// Whether a response of a list is the first there that carries the number of a request.
pub open spec fn is_first(outputs: Seq<OutputView>, i: int, id: RequestId) -> bool {
    &&& carries(outputs[i].id, id)
    &&& forall|k: int| 0 <= k < i ==> !carries((#[trigger] outputs[k]).id, id)
}

/// Whether a list of responses was handed out: each in its place, to whoever waited for the
/// request whose number it is the first to carry, or else to nobody. Who got one waits no longer,
/// and everybody else goes on waiting.
pub open spec fn hands_out<P>(
    before: Map<RequestId, P>,
    outputs: Seq<OutputView>,
    deliveries: Seq<DeliveryView<P>>,
    after: Map<RequestId, P>,
) -> bool {
    &&& deliveries.len() == outputs.len()
    &&& forall|i: int, id: RequestId|
        #![trigger is_first(outputs, i, id)]
        0 <= i < outputs.len() && is_first(outputs, i, id) && before.dom().contains(id)
            ==> deliveries[i] == (DeliveryView::Answer { to: before[id], output: outputs[i] })
    &&& forall|i: int|
        #![trigger deliveries[i]]
        0 <= i < outputs.len() && (forall|id: RequestId| #[trigger]
            is_first(outputs, i, id) ==> !before.dom().contains(id)) ==> deliveries[i]
            == DeliveryView::<P>::Unclaimed(UnclaimedView::Response(outputs[i]))
    &&& forall|id: RequestId| #[trigger]
        after.dom().contains(id) <==> before.dom().contains(id) && forall|i: int|
            0 <= i < outputs.len() ==> !carries((#[trigger] outputs[i]).id, id)
    &&& forall|id: RequestId|
        after.dom().contains(id) ==> #[trigger] after[id] == before[id]
}

proof fn lemma_hands_out<P>(before: Map<RequestId, P>, outputs: Seq<OutputView>)
    ensures
        ({
            let all = outputs_dispatched(before, outputs);
            hands_out(before, outputs, all.deliveries, all.pending)
        }),
    decreases outputs.len(),
{
    let all = outputs_dispatched(before, outputs);
    if outputs.len() > 0 {
        let earlier = outputs.drop_last();
        let last = outputs.last();
        let n = earlier.len() as int;
        lemma_hands_out(before, earlier);
        let middle = outputs_dispatched(before, earlier);
        let step = output_dispatched(middle.pending, last);
        assert(forall|id: RequestId| #[trigger]
            carries(last.id, id) <==> request_of_id(last.id) == Some(id));
        assert(forall|i: int| 0 <= i < n ==> #[trigger] earlier[i] == outputs[i]);
        assert(outputs[n] == last);
        assert forall|i: int, id: RequestId| 0 <= i < n implies (is_first(earlier, i, id)
            <==> #[trigger] is_first(outputs, i, id)) by {
            assert(earlier[i] == outputs[i]);
            if is_first(earlier, i, id) {
                assert forall|k: int| 0 <= k < i implies !carries(
                    (#[trigger] outputs[k]).id,
                    id,
                ) by {
                    assert(earlier[k] == outputs[k]);
                }
            }
            if is_first(outputs, i, id) {
                assert forall|k: int| 0 <= k < i implies !carries(
                    (#[trigger] earlier[k]).id,
                    id,
                ) by {
                    assert(earlier[k] == outputs[k]);
                }
            }
        }
        assert forall|id: RequestId| #[trigger] middle.pending.dom().contains(id) && carries(
            last.id,
            id,
        ) <==> before.dom().contains(id) && is_first(outputs, n, id) by {
            if is_first(outputs, n, id) {
                assert forall|k: int| 0 <= k < n implies !carries(
                    (#[trigger] earlier[k]).id,
                    id,
                ) by {
                    assert(earlier[k] == outputs[k]);
                }
            }
            if middle.pending.dom().contains(id) && carries(last.id, id) {
                assert forall|k: int| 0 <= k < n implies !carries(
                    (#[trigger] outputs[k]).id,
                    id,
                ) by {
                    assert(earlier[k] == outputs[k]);
                }
            }
        }
        assert forall|i: int, id: RequestId|
            #![trigger is_first(outputs, i, id)]
            0 <= i < outputs.len() && is_first(outputs, i, id) && before.dom().contains(
                id,
            ) implies all.deliveries[i] == (DeliveryView::Answer {
            to: before[id],
            output: outputs[i],
        }) by {
            if i < n {
                assert(is_first(earlier, i, id));
                assert(all.deliveries[i] == middle.deliveries[i]);
            } else {
                assert(middle.pending.dom().contains(id));
                assert(middle.pending[id] == before[id]);
            }
        }
        assert forall|i: int|
            #![trigger all.deliveries[i]]
            0 <= i < outputs.len() && (forall|id: RequestId| #[trigger]
                is_first(outputs, i, id) ==> !before.dom().contains(id)) implies all.deliveries[i]
            == DeliveryView::<P>::Unclaimed(UnclaimedView::Response(outputs[i])) by {
            if i < n {
                assert forall|id: RequestId| #[trigger] is_first(
                    earlier,
                    i,
                    id,
                ) implies !before.dom().contains(id) by {
                    assert(is_first(outputs, i, id));
                }
                assert(all.deliveries[i] == middle.deliveries[i]);
            } else {
                if last.id is Num {
                    let id = last.id->Num_0 as RequestId;
                    assert(carries(last.id, id));
                    if middle.pending.dom().contains(id) {
                        assert(is_first(outputs, n, id));
                    }
                }
            }
        }
        assert forall|id: RequestId| #[trigger] all.pending.dom().contains(id)
            <==> before.dom().contains(id) && forall|i: int|
            0 <= i < outputs.len() ==> !carries((#[trigger] outputs[i]).id, id) by {
            if all.pending.dom().contains(id) {
                assert(middle.pending.dom().contains(id));
                assert forall|i: int| 0 <= i < outputs.len() implies !carries(
                    (#[trigger] outputs[i]).id,
                    id,
                ) by {
                    if i < n {
                        assert(earlier[i] == outputs[i]);
                    }
                }
            }
            if before.dom().contains(id) && forall|i: int|
                0 <= i < outputs.len() ==> !carries((#[trigger] outputs[i]).id, id) {
                assert forall|k: int| 0 <= k < n implies !carries(
                    (#[trigger] earlier[k]).id,
                    id,
                ) by {
                    assert(earlier[k] == outputs[k]);
                }
                assert(middle.pending.dom().contains(id));
                assert(!carries(outputs[n].id, id));
            }
        }
        assert forall|id: RequestId| all.pending.dom().contains(
            id,
        ) implies #[trigger] all.pending[id] == before[id] by {
            assert(middle.pending.dom().contains(id));
            assert(middle.pending[id] == before[id]);
        }
    }
}

/// The responses in what came, one or all of a batch in their order.
pub open spec fn outputs_in(response: Response) -> Seq<OutputView> {
    match response {
        Response::Single(output) => seq![output@],
        Response::Batch(outputs) => Seq::new(outputs@.len(), |i: int| outputs@[i]@),
    }
}

/// Responses that come together are handed out one by one, each to whoever waits for it.
pub proof fn responses_go_to_who_waits_for_them<P>(
    pending: &mut BTreeMap<RequestId, P>,
    response: Response,
    r: Vec<Delivery<P>>,
)
    requires
        call_ensures(respond::<P>, (pending, response), r),
    ensures
        hands_out(old(pending)@, outputs_in(response), deliveries_view(r@), final(pending)@),
        deliveries_view(r@).len() == r@.len(),
        forall|i: int| 0 <= i < r@.len() ==> deliveries_view(r@)[i] == (#[trigger] r@[i])@,
{
    assert(response@.outputs() =~= outputs_in(response));
    lemma_hands_out(old(pending)@, outputs_in(response));
}

/// Whether this is what a notification brings: its news, to the subscription that it names if
/// that has a receiver, and else to nobody.
pub open spec fn brings_news<P>(
    subscribed: Set<Seq<char>>,
    notification: NotificationView,
    delivery: DeliveryView<P>,
) -> bool {
    &&& forall|id: Seq<char>, value: Value| #[trigger]
        has_news(notification, id, value) && subscribed.contains(id) ==> delivery
            == (DeliveryView::<P>::Notice { id, value })
    &&& forall|id: Seq<char>, value: Value| #[trigger]
        has_news(notification, id, value) && !subscribed.contains(id) ==> delivery
            == DeliveryView::<P>::Unclaimed(UnclaimedView::Notice { id, value })
    &&& (forall|id: Seq<char>, value: Value| !#[trigger] has_news(notification, id, value))
        ==> delivery == DeliveryView::<P>::Unclaimed(UnclaimedView::Notification)
}

proof fn lemma_brings_news<P>(subscribed: Set<Seq<char>>, notification: NotificationView)
    ensures
        brings_news(subscribed, notification, noticed::<P>(subscribed, notification)),
{
    if let Some((id, value)) = notice_of(notification) {
        assert(has_news(notification, id, value));
    }
}

/// A notification brings its news to the subscription that it names.
pub proof fn a_notification_brings_its_news<P, S>(
    subscriptions: &Subscriptions<S>,
    notification: &Notification,
    r: Delivery<P>,
)
    requires
        call_ensures(notify::<P, S>, (subscriptions, notification), r),
    ensures
        brings_news(subscriptions@.dom(), notification@, r@),
{
    lemma_brings_news::<P>(subscriptions@.dom(), notification@);
}

/// The responses that a JSON value holds.
pub open spec fn outputs_read(raw: RawResponseView) -> Seq<OutputView> {
    match raw {
        RawResponseView::Single(output) => seq![output_parts(output)],
        RawResponseView::Batch(outputs) => Seq::new(
            outputs.len(),
            |i: int| output_parts(outputs[i]),
        ),
    }
}

/// Whether a JSON value was dealt with: a notification brings its news and answers nobody,
/// responses are handed out, and anything else is for nobody.
pub open spec fn deals_with<P>(
    value: Value,
    subscribed: Set<Seq<char>>,
    before: Map<RequestId, P>,
    deliveries: Seq<DeliveryView<P>>,
    after: Map<RequestId, P>,
) -> bool {
    &&& notification_of_value(value) matches Some(notification) ==> deliveries.len() == 1
        && brings_news(subscribed, notification, deliveries[0]) && after == before
    &&& notification_of_value(value) is None && response_of_value(value) is Some ==> hands_out(
        before,
        outputs_read(response_of_value(value)->Some_0),
        deliveries,
        after,
    )
    &&& notification_of_value(value) is None && response_of_value(value) is None ==> deliveries
        == seq![DeliveryView::<P>::Unclaimed(UnclaimedView::Other)] && after == before
}

proof fn lemma_deals_with<P>(
    value: Value,
    subscribed: Set<Seq<char>>,
    before: Map<RequestId, P>,
)
    ensures
        ({
            let all = value_dispatched(before, subscribed, value);
            deals_with(value, subscribed, before, all.deliveries, all.pending)
        }),
{
    match notification_of_value(value) {
        Some(notification) => {
            lemma_brings_news::<P>(subscribed, notification);
        },
        None => {
            if let Some(raw) = response_of_value(value) {
                assert(opened(raw).outputs() =~= outputs_read(raw));
                lemma_hands_out(before, outputs_read(raw));
            }
        },
    }
}

/// Whether JSON values were dealt with one after the other: from who waits before each to who
/// waits behind it, with what each of them brings, all of it in their order.
pub open spec fn deals_with_each<P>(
    values: Seq<Value>,
    subscribed: Set<Seq<char>>,
    waiting: Seq<Map<RequestId, P>>,
    brought: Seq<Seq<DeliveryView<P>>>,
) -> bool {
    &&& waiting.len() == values.len() + 1
    &&& brought.len() == values.len()
    &&& forall|i: int|
        0 <= i < values.len() ==> #[trigger] deals_with(
            values[i],
            subscribed,
            waiting[i],
            brought[i],
            waiting[i + 1],
        )
}

proof fn lemma_deals_with_each<P>(
    values: Seq<Value>,
    subscribed: Set<Seq<char>>,
    before: Map<RequestId, P>,
) -> (r: (Seq<Map<RequestId, P>>, Seq<Seq<DeliveryView<P>>>))
    ensures
        deals_with_each(values, subscribed, r.0, r.1),
        r.0[0] == before,
        r.0.last() == values_dispatched(before, subscribed, values).pending,
        r.1.flatten() == values_dispatched(before, subscribed, values).deliveries,
    decreases values.len(),
{
    if values.len() == 0 {
        let r = (seq![before], Seq::<Seq<DeliveryView<P>>>::empty());
        assert(r.1.flatten() =~= Seq::<DeliveryView<P>>::empty());
        r
    } else {
        let earlier = values.drop_last();
        let (waiting, brought) = lemma_deals_with_each(earlier, subscribed, before);
        let middle = values_dispatched(before, subscribed, earlier);
        let step = value_dispatched(middle.pending, subscribed, values.last());
        lemma_deals_with(values.last(), subscribed, middle.pending);
        let r = (waiting.push(step.pending), brought.push(step.deliveries));
        assert forall|i: int| 0 <= i < values.len() implies #[trigger] deals_with(
            values[i],
            subscribed,
            r.0[i],
            r.1[i],
            r.0[i + 1],
        ) by {
            if i < earlier.len() {
                assert(deals_with(
                    earlier[i],
                    subscribed,
                    waiting[i],
                    brought[i],
                    waiting[i + 1],
                ));
            } else {
                assert(waiting.last() == waiting[i]);
            }
        }
        brought.lemma_flatten_push(step.deliveries);
        r
    }
}

/// Reading JSON values: the first is the one at the start of the bytes, and the others are read
/// from what is behind it, as if that had come alone. Where none is there as a whole, nothing is
/// read, and what stands before it is done with.
pub proof fn values_are_read_one_behind_the_other(
    bytes: &[u8],
    r: (Vec<Value>, usize),
    rest: &[u8],
    s: (Vec<Value>, usize),
)
    requires
        call_ensures(read_values, (bytes,), r),
        call_ensures(read_values, (rest,), s),
    ensures
        r.1 <= bytes@.len(),
        ({
            let (value, n) = first_value(bytes@);
            &&& value is Some && 0 < n <= bytes@.len() && rest@ == bytes@.skip(n as int) ==> {
                &&& r.0@.len() == s.0@.len() + 1
                &&& r.0@[0] == value->Some_0
                &&& forall|i: int| 0 <= i < s.0@.len() ==> r.0@[i + 1] == #[trigger] s.0@[i]
                &&& bytes@.skip(r.1 as int) == rest@.skip(s.1 as int)
            }
            &&& !(value is Some && 0 < n <= bytes@.len()) ==> r.0@.len() == 0 && bytes@.skip(
                r.1 as int,
            ) == bytes@.skip(n as int)
        }),
{
}

/// Bytes from the node are joined to what was left of earlier ones, and each JSON value in them is
/// dealt with, in their order and once. What is no whole value is left for later. Nothing else
/// changes.
pub proof fn bytes_are_dealt_with_value_by_value<P, S>(
    server: &mut Server<P, S>,
    bytes: &[u8],
    r: Vec<Delivery<P>>,
    all: &[u8],
    read: (Vec<Value>, usize),
)
    requires
        call_ensures(Server::<P, S>::on_bytes, (server, bytes), r),
        all@ == old(server)@.unread + bytes@,
        call_ensures(read_values, (all,), read),
    ensures
        final(server)@.unread == all@.skip(read.1 as int),
        final(server)@.subscriptions == old(server)@.subscriptions,
        final(server)@.closed == old(server)@.closed,
        exists|waiting: Seq<Map<RequestId, P>>, brought: Seq<Seq<DeliveryView<P>>>|
            {
                &&& #[trigger] deals_with_each(
                    read.0@,
                    old(server)@.subscriptions.dom(),
                    waiting,
                    brought,
                )
                &&& waiting[0] == old(server)@.pending
                &&& waiting.last() == final(server)@.pending
                &&& brought.flatten() == deliveries_view(r@)
            },
{
    let (waiting, brought) = lemma_deals_with_each(
        read.0@,
        old(server)@.subscriptions.dom(),
        old(server)@.pending,
    );
}

/// What is read from the socket is dealt with as bytes are. An error stops the connection with its
/// description, the end stops it, and neither changes anything.
pub proof fn what_is_read_is_dealt_with<P, S>(
    server: &mut Server<P, S>,
    read: Option<Result<Vec<u8>, String>>,
    r: Step<P>,
    other: &mut Server<P, S>,
    bytes: &[u8],
    s: Vec<Delivery<P>>,
)
    requires
        call_ensures(Server::<P, S>::on_read, (server, read), r),
        *old(other) == *old(server),
        call_ensures(Server::<P, S>::on_bytes, (other, bytes), s),
    ensures
        match read {
            Some(Ok(came)) => {
                &&& r is Deliver
                &&& came@ == bytes@ ==> deliveries_view(r->Deliver_0@) == deliveries_view(s@)
                    && final(server)@ == final(other)@
            },
            Some(Err(text)) => r is Fail && says(r->Fail_0, text@) && final(server)@
                == old(server)@,
            None => r is Stop && final(server)@ == old(server)@,
        },
{
}

/// Pieces are dealt with one after the other, as bytes are.
pub proof fn pieces_are_dealt_with_one_by_one<P, S>(
    server: &mut Server<P, S>,
    pieces: &[Vec<u8>],
    r: Vec<Delivery<P>>,
    other: &mut Server<P, S>,
    first: &[Vec<u8>],
    s: Vec<Delivery<P>>,
    last: &mut Server<P, S>,
    bytes: &[u8],
    t: Vec<Delivery<P>>,
)
    requires
        call_ensures(Server::<P, S>::on_pieces, (server, pieces), r),
        *old(other) == *old(server),
        call_ensures(Server::<P, S>::on_pieces, (other, first), s),
        *old(last) == *final(other),
        call_ensures(Server::<P, S>::on_bytes, (last, bytes), t),
        pieces@.len() > 0 ==> first@ == pieces@.drop_last() && bytes@ == pieces@.last()@,
    ensures
        pieces@.len() > 0 ==> {
            &&& deliveries_view(r@) == deliveries_view(s@) + deliveries_view(t@)
            &&& final(server)@ == final(last)@
        },
        pieces@.len() == 0 ==> r@.len() == 0 && final(server)@ == old(server)@,
{
    if pieces@.len() > 0 {
        assert(pieces_view(pieces@).drop_last() =~= pieces_view(first@));
        assert(pieces_view(pieces@).last() == bytes@);
    } else {
        assert(deliveries_view(r@).len() == r@.len());
    }
}

/// A fresh connection waits for nothing, has no subscriptions, has read nothing, and runs.
pub proof fn a_fresh_connection_is_empty<P, S>(server: Server<P, S>, runs: bool)
    requires
        call_ensures(Server::<P, S>::new, (), server),
        call_ensures(Server::<P, S>::is_running, (&server,), runs),
    ensures
        runs,
        !server@.closed,
        server@.unread.len() == 0,
        server@.pending.dom() == Set::<RequestId>::empty(),
        server@.subscriptions.dom() == Set::<Seq<char>>::empty(),
{
}

/// What a connection says of itself is what it holds. It runs as long as its client is there or
/// somebody waits for a response, and no longer.
pub proof fn a_connection_tells_what_it_holds<P, S>(
    server: &Server<P, S>,
    id: RequestId,
    waits: bool,
    subscription: &SubscriptionId,
    sink: Option<&S>,
    runs: bool,
)
    requires
        call_ensures(Server::<P, S>::awaits, (server, id), waits),
        call_ensures(Server::<P, S>::receiver, (server, subscription), sink),
        call_ensures(Server::<P, S>::is_running, (server,), runs),
    ensures
        waits <==> server@.pending.dom().contains(id),
        sink is Some <==> server@.subscriptions.dom().contains(subscription@),
        sink is Some ==> *sink->Some_0 == server@.subscriptions[subscription@],
        !server@.closed ==> runs,
        waits ==> runs,
        runs && server@.closed ==> exists|other: RequestId| #[trigger]
            server@.pending.dom().contains(other),
{
    if runs && server@.closed {
        assert(!server@.pending.is_empty());
        if forall|other: RequestId| !#[trigger] server@.pending.dom().contains(other) {
            assert(server@.pending =~= Map::empty());
        }
    }
}

/// Whether no later request of a list has the same id.
pub open spec fn is_last<P>(requests: Seq<TransportRequest<P>>, i: int) -> bool {
    forall|k: int| i < k < requests.len() ==> (#[trigger] requests[k]).0 != requests[i].0
}

/// Whether some request of a list has this id.
pub open spec fn is_named<P>(requests: Seq<TransportRequest<P>>, id: RequestId) -> bool {
    exists|i: int| 0 <= i < requests.len() && (#[trigger] requests[i]).0 == id
}

/// Whether the requests of a list are waited for: each by the last there with its id. Every other
/// request is waited for as before.
pub open spec fn waits_for_each<P>(
    before: Map<RequestId, P>,
    requests: Seq<TransportRequest<P>>,
    after: Map<RequestId, P>,
) -> bool {
    &&& forall|i: int|
        0 <= i < requests.len() && #[trigger] is_last(requests, i) ==> after.dom().contains(
            requests[i].0,
        ) && after[requests[i].0] == requests[i].2
    &&& forall|id: RequestId|
        !#[trigger] is_named(requests, id) ==> (after.dom().contains(id) <==> before.dom().contains(
            id,
        )) && (before.dom().contains(id) ==> after[id] == before[id])
}

proof fn lemma_waits_for_each<P>(before: Map<RequestId, P>, requests: Seq<TransportRequest<P>>)
    ensures
        waits_for_each(before, requests, registered(before, requests)),
    decreases requests.len(),
{
    if requests.len() > 0 {
        let earlier = requests.drop_last();
        let n = earlier.len() as int;
        lemma_waits_for_each(before, earlier);
        let after = registered(before, requests);
        assert(requests[n] == requests.last());
        assert forall|i: int| 0 <= i < requests.len() && #[trigger] is_last(
            requests,
            i,
        ) implies after.dom().contains(requests[i].0) && after[requests[i].0] == requests[i].2 by {
            if i < n {
                assert(requests[n].0 != requests[i].0);
                assert(earlier[i] == requests[i]);
                assert(is_last(earlier, i)) by {
                    assert forall|k: int| i < k < earlier.len() implies (#[trigger] earlier[k]).0
                        != earlier[i].0 by {
                        assert(requests[k].0 != requests[i].0);
                    }
                }
            }
        }
        assert forall|id: RequestId| !#[trigger] is_named(requests, id) implies (
        after.dom().contains(id) <==> before.dom().contains(id)) && (before.dom().contains(id)
            ==> after[id] == before[id]) by {
            assert(requests[n].0 != id);
            if is_named(earlier, id) {
                let i = choose|i: int| 0 <= i < earlier.len() && (#[trigger] earlier[i]).0 == id;
                assert(requests[i].0 == id);
            }
        }
    }
}

/// A message of the client does what it asks for and touches nothing else. A call or a batch is
/// written, all its calls in their order, and waited for. A subscription comes to its receiver or
/// is gone, and every other stays as it was. The end of the messages is noted.
pub proof fn a_message_of_the_client_touches_what_it_names<P, S>(
    server: &mut Server<P, S>,
    message: Option<TransportMessage<P, S>>,
    r: Option<Write>,
)
    requires
        call_ensures(Server::<P, S>::on_message, (server, message), r),
    ensures
        final(server)@.unread == old(server)@.unread,
        final(server)@.closed <==> old(server)@.closed || message is None,
        r is Some <==> message is Some && (message->Some_0 is Single || message->Some_0 is Batch),
        match message {
            Some(TransportMessage::Single(request)) => {
                &&& r->Some_0.ids@ == seq![request.0]
                &&& r->Some_0.text@ == request_json(RequestView::Single(request.1))
                &&& final(server)@.pending.dom().contains(request.0)
                &&& final(server)@.pending[request.0] == request.2
                &&& agree_but_at(old(server)@.pending, final(server)@.pending, request.0)
                &&& final(server)@.subscriptions == old(server)@.subscriptions
            },
            Some(TransportMessage::Batch(requests)) => {
                &&& r->Some_0.ids@.len() == requests@.len()
                &&& forall|i: int|
                    0 <= i < requests@.len() ==> #[trigger] r->Some_0.ids@[i] == requests@[i].0
                &&& exists|calls: Seq<jsonrpc_core::Call>|
                    {
                        &&& calls.len() == requests@.len()
                        &&& forall|i: int|
                            0 <= i < requests@.len() ==> #[trigger] calls[i] == requests@[i].1
                        &&& r->Some_0.text@ == #[trigger] request_json(RequestView::Batch(calls))
                    }
                &&& waits_for_each(old(server)@.pending, requests@, final(server)@.pending)
                &&& final(server)@.subscriptions == old(server)@.subscriptions
            },
            Some(TransportMessage::Subscribe(id, sink)) => {
                &&& final(server)@.pending == old(server)@.pending
                &&& final(server)@.subscriptions.dom().contains(id@)
                &&& final(server)@.subscriptions[id@] == sink
                &&& agree_but_at(old(server)@.subscriptions, final(server)@.subscriptions, id@)
            },
            Some(TransportMessage::Unsubscribe(id)) => {
                &&& final(server)@.pending == old(server)@.pending
                &&& !final(server)@.subscriptions.dom().contains(id@)
                &&& agree_but_at(old(server)@.subscriptions, final(server)@.subscriptions, id@)
            },
            None => {
                &&& final(server)@.pending == old(server)@.pending
                &&& final(server)@.subscriptions == old(server)@.subscriptions
            },
        },
{
    if let Some(TransportMessage::Batch(requests)) = message {
        lemma_waits_for_each(old(server)@.pending, requests@);
        let calls = super::calls_of(requests@);
        assert(r->Some_0.text@ == request_json(RequestView::Batch(calls)));
    }
}

/// Subscribing or unsubscribing leaves every other subscription as it was: its receiver is still
/// there, and a notification for it still brings its news.
pub proof fn other_subscriptions_go_on<P, S>(
    server: &mut Server<P, S>,
    message: TransportMessage<P, S>,
    r: Option<Write>,
    id: SubscriptionId,
    other: &SubscriptionId,
    before: Option<&S>,
    after: Option<&S>,
    subscriptions: &Subscriptions<S>,
    notification: &Notification,
    value: Value,
    delivery: Delivery<P>,
)
    requires
        match message {
            TransportMessage::Subscribe(named, _) => named@ == id@,
            TransportMessage::Unsubscribe(named) => named@ == id@,
            _ => false,
        },
        call_ensures(Server::<P, S>::receiver, (old(server), other), before),
        call_ensures(Server::<P, S>::on_message, (server, Some(message)), r),
        call_ensures(Server::<P, S>::receiver, (final(server), other), after),
        subscriptions@ == final(server)@.subscriptions,
        has_news(notification@, other@, value),
        call_ensures(notify::<P, S>, (subscriptions, notification), delivery),
        other@ != id@,
    ensures
        after == before,
        before is Some ==> delivery@ == (DeliveryView::<P>::Notice { id: other@, value }),
        before is None ==> delivery@ == DeliveryView::<P>::Unclaimed(
            UnclaimedView::Notice { id: other@, value },
        ),
{
    a_message_of_the_client_touches_what_it_names(server, Some(message), r);
    a_notification_brings_its_news(subscriptions, notification, delivery);
    assert(final(server)@.subscriptions.dom().contains(other@)
        <==> old(server)@.subscriptions.dom().contains(other@));
}

/// Whether a write went through touches its requests alone: those of one that did not are not
/// waited for, and one that did changes nothing.
pub proof fn unwritten_requests_are_not_waited_for<P, S>(
    server: &mut Server<P, S>,
    ids: &[RequestId],
    sent: bool,
)
    requires
        call_ensures(Server::<P, S>::on_written, (server, ids, sent), ()),
    ensures
        final(server)@.subscriptions == old(server)@.subscriptions,
        final(server)@.unread == old(server)@.unread,
        final(server)@.closed == old(server)@.closed,
        sent ==> final(server)@.pending == old(server)@.pending,
        !sent ==> forall|i: int|
            0 <= i < ids@.len() ==> !final(server)@.pending.dom().contains(#[trigger] ids@[i]),
        !sent ==> forall|id: RequestId|
            (forall|i: int| 0 <= i < ids@.len() ==> #[trigger] ids@[i] != id) ==> (
            #[trigger] final(server)@.pending.dom().contains(id)
                <==> old(server)@.pending.dom().contains(id)) && (
            old(server)@.pending.dom().contains(id) ==> final(server)@.pending[id]
                == old(server)@.pending[id]),
{
    if !sent {
        assert forall|id: RequestId| ids@.to_set().contains(id) <==> ids@.contains(id) by {}
        assert forall|i: int| 0 <= i < ids@.len() implies !final(server)@.pending.dom().contains(
            #[trigger] ids@[i],
        ) by {
            assert(ids@.contains(ids@[i]));
            assert(ids@.to_set().contains(ids@[i]));
        }
    }
}

/// A single call comes to what its response says: the value, whatever it is, or the error object.
/// Where none will come, or the call could not be handed over, that is the error.
pub proof fn a_single_call_comes_to_its_outcome(
    sent: Result<Result<Output, Canceled>, Error>,
    r: Result<Value, Error>,
)
    requires
        call_ensures(settle_single, (sent,), r),
    ensures
        match sent {
            Ok(Ok(Output::Success(success))) => r == Ok::<Value, Error>(success.result),
            Ok(Ok(Output::Failure(failure))) => r == Err::<Value, Error>(
                Error::Rpc(failure.error),
            ),
            Ok(Err(_)) => r is Err && says(r->Err_0, "oneshot canceled"@),
            Err(e) => r is Err && r->Err_0@ == e@,
        },
{
}

/// A batch comes to what the response to each call says, in the order of the calls. A call whose
/// response will not come has its own error, and the others keep what they got.
pub proof fn a_batch_comes_to_its_outcomes(
    sent: Result<Vec<Result<Output, Canceled>>, Error>,
    r: Result<Vec<Result<Value, Error>>, Error>,
)
    requires
        call_ensures(settle_batch, (sent,), r),
    ensures
        match sent {
            Ok(answers) => {
                &&& r is Ok
                &&& r->Ok_0@.len() == answers@.len()
                &&& forall|i: int|
                    #![trigger r->Ok_0@[i]]
                    0 <= i < answers@.len() ==> match answers@[i] {
                        Ok(output) => tells(r->Ok_0@[i], output@),
                        Err(_) => r->Ok_0@[i] is Err && says(
                            r->Ok_0@[i]->Err_0,
                            "Canceled: "@ + "Canceled"@,
                        ),
                    }
            },
            Err(e) => r is Err && r->Err_0@ == e@,
        },
{
    if let Ok(answers) = sent {
        let results = results_view(r->Ok_0@);
        assert(results.len() == r->Ok_0@.len());
        assert forall|i: int|
            #![trigger r->Ok_0@[i]]
            0 <= i < answers@.len() implies match answers@[i] {
            Ok(output) => tells(r->Ok_0@[i], output@),
            Err(_) => r->Ok_0@[i] is Err && says(
                r->Ok_0@[i]->Err_0,
                "Canceled: "@ + "Canceled"@,
            ),
        } by {
            assert(results[i] == crate::error::result_view(r->Ok_0@[i]));
            assert(results[i] == super::part_settled(super::received(answers@[i])));
        }
    }
}

/// A client keeps the socket that was connected to, and one that could not be says why.
pub proof fn a_connected_socket_is_kept<T>(
    connected: Result<T, String>,
    r: Result<(Ipc, T), Error>,
    ipc: Ipc,
)
    requires
        call_ensures(Ipc::new::<T>, (connected,), r),
        call_ensures(Ipc::with_stream, (), ipc),
    ensures
        match connected {
            Ok(stream) => r is Ok && r->Ok_0.1 == stream && r->Ok_0.0.upcoming() == ipc.upcoming(),
            Err(text) => r is Err && says(r->Err_0, text@),
        },
{
}

/// A client numbers its calls from one, and each call holds its method and its parameters under
/// the next id.
pub proof fn calls_are_numbered_from_one(
    ipc: Ipc,
    client: &mut Ipc,
    method: &str,
    params: Vec<Value>,
    r: (RequestId, jsonrpc_core::Call),
    later: &mut Ipc,
    next: (RequestId, jsonrpc_core::Call),
)
    requires
        call_ensures(Ipc::with_stream, (), ipc),
        call_ensures(Ipc::prepare, (client, method, params), r),
        *old(later) == *final(client),
        call_ensures(Ipc::prepare, (later, method, params), next),
    ensures
        *old(client) == ipc ==> r.0 == 1,
        r.0 < usize::MAX ==> next.0 == r.0 + 1,
        r.0 == usize::MAX ==> next.0 == 0,
        r.1 == call_of(
            MethodCallView {
                jsonrpc: Some(Version::V2),
                method: method@,
                params: ParamsView::Array(params@),
                id: IdView::Num(r.0 as u64),
            },
        ),
{
    crate::ids::lemma_second_id(r.0);
}

/// Each call of a batch goes with its own id and with who waits for its own response.
pub proof fn each_call_goes_with_who_waits_for_it<P, S>(
    requests: Vec<(RequestId, jsonrpc_core::Call)>,
    waiting: Vec<P>,
    r: TransportMessage<P, S>,
)
    requires
        requests@.len() == waiting@.len(),
        call_ensures(batch_message::<P, S>, (requests, waiting), r),
    ensures
        r matches TransportMessage::Batch(batch) && {
            &&& batch@.len() == requests@.len()
            &&& forall|i: int|
                0 <= i < requests@.len() ==> (#[trigger] batch@[i]).0 == requests@[i].0
                    && batch@[i].1 == requests@[i].1 && batch@[i].2 == waiting@[i]
        },
{
}

/// A message that could not be handed over is an error of the connection.
pub proof fn what_cannot_be_handed_over_is_an_error<P, S>(
    error: SendError<TransportMessage<P, S>>,
    e: Error,
)
    requires
        call_ensures(<Error as From<SendError<TransportMessage<P, S>>>>::from, (error,), e),
    ensures
        says(e, "Send Error: "@ + "SendError { .. }"@),
{
}

/// Several subscriptions live side by side: subscribing or unsubscribing one of them leaves every
/// other with the receiver that it had, or without one.
pub proof fn subscriptions_live_side_by_side<P, S>(
    server: ServerView<P, S>,
    id: SubscriptionId,
    sink: S,
    other: Seq<char>,
)
    requires
        other != id@,
    ensures
        ({
            let on = server.told(Some(TransportMessage::Subscribe(id, sink))).subscriptions;
            let off = server.told(Some(TransportMessage::Unsubscribe(id))).subscriptions;
            &&& on.dom().contains(other) <==> server.subscriptions.dom().contains(other)
            &&& off.dom().contains(other) <==> server.subscriptions.dom().contains(other)
            &&& server.subscriptions.dom().contains(other) ==> on[other]
                == server.subscriptions[other] && off[other] == server.subscriptions[other]
        }),
{
}

/// A call comes to a value exactly where its response is a success with that value, whatever the
/// value is.
pub proof fn a_success_comes_to_its_own_value(output: OutputView, value: Value)
    ensures
        super::single_settled(Some(output)) == Ok::<Value, crate::error::ErrorView>(value)
            <==> output.outcome == Ok::<Value, jsonrpc_core::Error>(value),
        super::part_settled(Some(output)) == Ok::<Value, crate::error::ErrorView>(value)
            <==> output.outcome == Ok::<Value, jsonrpc_core::Error>(value),
        super::single_settled(None) is Err,
        super::part_settled(None) is Err,
{
}

} // verus!
