//! What holds of a connection to a node, whatever is sent and received over it.
use std::collections::BTreeMap;

use futures::channel::oneshot::Canceled;
use serde_json::Value;
use vstd::prelude::*;

use super::{
    answered_request, batch_to_batch, batch_to_single, check_handshake, dropped_err, endpoint,
    endpoint_at, handle_message, handle_notification, handle_outputs, noticed, outputs_dispatched,
    reached, send, send_batch, send_request, single_of, Action, BatchResult, Connected, Delivery,
    DeliveryView, Endpoint, Greeting, Handshake, Poll, Response, SingleResult, Step,
    TransportMessage, Unencrypted, WebSocket, WsServerTask, WsServerTaskView,
};
use crate::address::{basic_credentials, url_of_text, UrlParts, UrlView};
use crate::api::SubscriptionId;
use crate::error::{results_view, Error, TransportError};
use crate::helpers::{result_of_output, results_of_outputs};
use crate::json::{
    call_of, notification_of_bytes, output_parts, request_json, response_of_bytes, RawResponseView,
};
use crate::laws::{carries, digits_spell_their_number, has_news, objects, says, spells, tells};
use crate::rpc::{
    outputs_view, request_of_id, IdView, MethodCallView, Notification, NotificationView, Output,
    OutputView, ParamsView, Request, RequestView, Version,
};
use crate::subscriptions::{notice_of, Subscriptions};
use crate::text::decimal_digits;
use crate::RequestId;

verus! {

/// Whoever has a request sent gets all that the node answers to it, in the order in which the
/// node answers, and waits no longer.
pub proof fn a_request_gets_its_responses<P, S>(
    task: WsServerTaskView<P, S>,
    id: RequestId,
    request: String,
    sender: P,
    outputs: Seq<OutputView>,
)
    requires
        answered_request(outputs) == Some(id),
    ensures
        ({
            let told = task.told(Some(TransportMessage::Request { id, request, sender }));
            let all = outputs_dispatched(told.pending, outputs);
            &&& all.delivery == Some(
                DeliveryView::Answer { to: sender, results: Ok(results_of_outputs(outputs)) },
            )
            &&& all.pending == task.pending.remove(id)
        }),
{
    let told = task.told(Some(TransportMessage::Request { id, request, sender }));
    assert(told.pending.remove(id) =~= task.pending.remove(id));
}

/// A single call gets what the response with its id says of it.
pub proof fn a_single_call_gets_its_result(id: RequestId, output: OutputView)
    requires
        request_of_id(output.id) == Some(id),
    ensures
        answered_request(seq![output]) == Some(id),
        single_of(Ok(results_of_outputs(seq![output]))) == result_of_output(output),
{
}

/// A response that holds nothing answers nobody.
pub proof fn an_empty_response_answers_nobody<P>(
    pending: Map<RequestId, P>,
    outputs: Seq<OutputView>,
)
    requires
        outputs.len() == 0,
    ensures
        outputs_dispatched(pending, outputs).pending == pending,
        outputs_dispatched(pending, outputs).delivery is None,
{
}

/// A message that reads neither as a notification nor as a response is ignored.
pub proof fn what_cannot_be_read_is_ignored<P, S>(task: WsServerTaskView<P, S>, data: Seq<u8>)
    requires
        notification_of_bytes(data) is Err,
        response_of_bytes(data) is Err,
    ensures
        task.dispatch(data).pending == task.pending,
        task.dispatch(data).delivery is None,
{
}

/// Responses go to nobody but whoever waits for the request that they answer, and all others go
/// on waiting.
pub proof fn responses_go_only_to_who_waits<P>(
    pending: Map<RequestId, P>,
    outputs: Seq<OutputView>,
    id: RequestId,
)
    ensures
        ({
            let all = outputs_dispatched(pending, outputs);
            &&& match all.delivery {
                Some(DeliveryView::Answer { to, results }) => {
                    let answered = answered_request(outputs)->Some_0;
                    &&& answered_request(outputs) is Some
                    &&& pending.contains_key(answered)
                    &&& to == pending[answered]
                    &&& !all.pending.contains_key(answered)
                },
                Some(DeliveryView::Notice { .. }) => false,
                None => all.pending == pending,
            }
            &&& answered_request(outputs) != Some(id) ==> (all.pending.contains_key(id)
                <==> pending.contains_key(id)) && (pending.contains_key(id) ==> all.pending[id]
                == pending[id])
        }),
{
}

/// No request is answered twice: what answers it a second time is dropped.
pub proof fn no_request_is_answered_twice<P>(
    pending: Map<RequestId, P>,
    first: Seq<OutputView>,
    second: Seq<OutputView>,
)
    requires
        answered_request(first) == answered_request(second),
    ensures
        ({
            let before = outputs_dispatched(pending, first);
            let after = outputs_dispatched(before.pending, second);
            &&& after.delivery is None
            &&& after.pending == before.pending
        }),
{
}

/// Nobody waits for a request that was not sent. Apart from that it leaves no trace, and where it
/// was new it leaves none at all.
pub proof fn a_failed_send_is_undone<P, S>(
    task: WsServerTaskView<P, S>,
    id: RequestId,
    request: String,
    sender: P,
)
    ensures
        ({
            let told = task.told(Some(TransportMessage::Request { id, request, sender }));
            &&& told.sent(id, false) == (WsServerTaskView {
                pending: task.pending.remove(id),
                ..task
            })
            &&& !task.pending.contains_key(id) ==> told.sent(id, false) == task
        }),
{
    let told = task.told(Some(TransportMessage::Request { id, request, sender }));
    assert(told.sent(id, false).pending =~= task.pending.remove(id));
    if !task.pending.contains_key(id) {
        assert(told.sent(id, false).pending =~= task.pending);
    }
}

/// The receiver of a subscription gets its notifications, until the client has them stop.
pub proof fn notifications_reach_their_subscription<P, S>(
    task: WsServerTaskView<P, S>,
    id: SubscriptionId,
    sink: S,
    notification: NotificationView,
    value: Value,
)
    requires
        notice_of(notification) == Some((id@, value)),
    ensures
        ({
            let on = task.told(Some(TransportMessage::Subscribe { id, sink }));
            let off = on.told(Some(TransportMessage::Unsubscribe { id }));
            &&& on.subscriptions[id@] == sink
            &&& noticed::<P>(on.subscriptions.dom(), notification) == Some(
                DeliveryView::<P>::Notice { id: id@, value },
            )
            &&& noticed::<P>(off.subscriptions.dom(), notification) is None
        }),
{
}

/// The contents of a URL are all its parts.
pub proof fn the_contents_of_a_url_are_all_of_it(url: UrlParts)
    ensures
        url@.href == url.href@,
        url@.scheme == url.scheme@,
        url.host is Some <==> url@.host is Some,
        url.host is Some ==> url@.host->Some_0 == url.host->Some_0@,
        url@.port == url.port,
        url@.path == url.path@,
        url.query is Some <==> url@.query is Some,
        url.query is Some ==> url@.query->Some_0 == url.query->Some_0@,
        url@.username == url.username@,
        url.password is Some <==> url@.password is Some,
        url.password is Some ==> url@.password->Some_0 == url.password->Some_0@,
{
}

/// Whether text is a host and a port behind a colon.
pub open spec fn addresses(addr: Seq<char>, host: Seq<char>, port: u16) -> bool {
    &&& addr.len() > host.len()
    &&& addr.take(host.len() as int) == host
    &&& addr[host.len() as int] == ':'
    &&& spells(addr.skip(host.len() as int + 1), port as nat)
}

/// Whether what is asked for at a host is the path of a URL, and behind a question mark its query
/// where it has one.
pub open spec fn asks_for(resource: Seq<char>, path: Seq<char>, query: Option<Seq<char>>) -> bool {
    &&& resource.len() >= path.len()
    &&& forall|i: int| 0 <= i < path.len() ==> resource[i] == path[i]
    &&& query is None <==> resource.len() == path.len()
    &&& query is Some ==> {
        &&& resource[path.len() as int] == '?'
        &&& resource.len() == path.len() + 1 + query->Some_0.len()
        &&& forall|i: int|
            0 <= i < query->Some_0.len() ==> resource[path.len() + 1 + i] == query->Some_0[i]
    }
}

/// Whether this is where a URL leads. It leads somewhere exactly where its scheme is that of a
/// WebSocket and it names a host: to that host, at the port that it names or the usual one of its
/// scheme, encrypted exactly for the secure scheme, to its path and query, and with the
/// credentials that it holds.
pub open spec fn leads_to(url: UrlView, r: Result<Endpoint, Error>) -> bool {
    let known = url.scheme == "ws"@ || url.scheme == "wss"@;
    &&& r is Ok <==> known && url.host is Some
    &&& !known ==> says(r->Err_0, "Wrong scheme: "@ + url.scheme)
    &&& known && url.host is None ==> says(r->Err_0, "Missing host in URL"@)
    &&& r is Ok ==> {
        let place = r->Ok_0;
        &&& place.secure <==> url.scheme == "wss"@
        &&& place.host@ == url.host->Some_0
        &&& url.port is Some ==> addresses(place.addr@, place.host@, url.port->Some_0)
        &&& url.port is None && url.scheme == "ws"@ ==> addresses(place.addr@, place.host@, 80)
        &&& url.port is None && url.scheme == "wss"@ ==> addresses(place.addr@, place.host@, 443)
        &&& asks_for(place.resource@, url.path, url.query)
        &&& place.authorization is Some <==> url.password is Some
        &&& url.password is Some ==> place.authorization->Some_0@ == basic_credentials(
            url.username,
            url.password->Some_0,
        )
    }
}

proof fn lemma_leads_to(url: UrlView, r: Result<Endpoint, Error>)
    requires
        super::endpoint_view(r) == super::endpoint_of(url),
    ensures
        leads_to(url, r),
{
    reveal_strlit("ws");
    reveal_strlit("wss");
    reveal_strlit(":");
    reveal_strlit("?");
    assert("ws"@.len() != "wss"@.len());
    if r is Ok {
        let place = r->Ok_0;
        assert(place@.host == place.host@ && place@.addr == place.addr@ && place@.resource
            == place.resource@ && place@.secure == place.secure);
        assert(place@.authorization is Some <==> place.authorization is Some);
        let host = url.host->Some_0;
        let port: u16 = if url.port is Some {
            url.port->Some_0
        } else if url.scheme == "ws"@ {
            80
        } else {
            443
        };
        assert(super::port_of(url) == port);
        let digits = decimal_digits(port as nat);
        digits_spell_their_number(port as nat);
        assert(place.addr@.take(host.len() as int) =~= host);
        assert(place.addr@.skip(host.len() as int + 1) =~= digits);
    }
}

/// The parts of a URL say where it leads.
pub proof fn a_url_leads_where_its_parts_say(url: UrlParts, r: Result<Endpoint, Error>)
    requires
        call_ensures(endpoint_at, (url,), r),
    ensures
        leads_to(url@, r),
{
    lemma_leads_to(url@, r);
}

/// A text that is a URL leads where its parts say, and any other leads nowhere.
pub proof fn a_text_leads_where_its_url_does(url: &str, r: Result<Endpoint, Error>)
    requires
        call_ensures(endpoint, (url,), r),
    ensures
        match url_of_text(url@) {
            Ok(parts) => leads_to(parts, r),
            Err(text) => r is Err && says(r->Err_0, "Invalid URL: "@ + text),
        },
{
    if let Ok(parts) = url_of_text(url@) {
        lemma_leads_to(parts, r);
    }
}

/// Two URLs that differ in their paths only lead to different resources.
pub proof fn another_path_is_another_resource(
    url: UrlParts,
    other: UrlParts,
    r: Result<Endpoint, Error>,
    s: Result<Endpoint, Error>,
)
    requires
        call_ensures(endpoint_at, (url,), r),
        call_ensures(endpoint_at, (other,), s),
        r is Ok,
        s is Ok,
        url@.query == other@.query,
        url@.path != other@.path,
    ensures
        r->Ok_0.resource@ != s->Ok_0.resource@,
{
    lemma_leads_to(url@, r);
    lemma_leads_to(other@, s);
    if r->Ok_0.resource@ == s->Ok_0.resource@ {
        assert(url@.path.len() == other@.path.len());
        assert(url@.path =~= other@.path);
    }
}

/// A connection that is open is kept, and one that is not says why.
pub proof fn an_open_connection_is_kept<T>(stream: Result<T, String>, r: Result<T, Error>)
    requires
        call_ensures(reached::<T>, (stream,), r),
    ensures
        match stream {
            Ok(stream) => r == Ok::<T, Error>(stream),
            Err(text) => r is Err && says(r->Err_0, text@),
        },
{
}

/// Whether this is what is said at an endpoint: its host, its resource and its credentials.
pub open spec fn is_said_at(greeting: Greeting, place: Endpoint) -> bool {
    forall|host: &str, resource: &str, authorization: Option<&[u8]>|
        {
            &&& #[trigger] call_ensures(Greeting::host, (&greeting,), host)
            &&& #[trigger] call_ensures(Greeting::resource, (&greeting,), resource)
            &&& #[trigger] call_ensures(Greeting::authorization, (&greeting,), authorization)
        } ==> {
            &&& host@ == place.host@
            &&& resource@ == place.resource@
            &&& authorization is Some <==> place.authorization is Some
            &&& authorization is Some ==> authorization->Some_0@ == place.authorization->Some_0@
        }
}

/// Nothing is said to a secure endpoint before the connection is encrypted, for its host. What is
/// said then, and at once to any other, is its host, its resource and its credentials.
pub proof fn a_secure_endpoint_is_talked_to_behind_encryption<T>(
    place: Endpoint,
    nodelay: Result<(), String>,
    r: Result<Connected, Error>,
    host: &str,
    stream: Result<T, String>,
    e: Result<(Greeting, T), Error>,
)
    requires
        call_ensures(Endpoint::set_up, (place, nodelay), r),
        r matches Ok(Connected::Secure(connection)) ==> call_ensures(
            Unencrypted::host,
            (&connection,),
            host,
        ) && call_ensures(Unencrypted::encrypted::<T>, (connection, stream), e),
    ensures
        match nodelay {
            Ok(()) => {
                &&& r is Ok
                &&& place.secure <==> r->Ok_0 is Secure
                &&& place.secure ==> host@ == place.host@ && match stream {
                    Ok(stream) => e is Ok && e->Ok_0.1 == stream && is_said_at(e->Ok_0.0, place),
                    Err(text) => e is Err && says(e->Err_0, "TLS connection failed: "@ + text@),
                }
                &&& !place.secure ==> is_said_at(r->Ok_0->Plain_0, place)
            },
            Err(text) => r is Err && says(r->Err_0, "Failed to set nodelay: "@ + text@),
        },
{
    assert(place@.host == place.host@ && place@.resource == place.resource@);
}

/// Only a node that accepts the handshake is talked to. Any other answer is its status code.
pub proof fn only_an_accepted_handshake_goes_on(
    answer: Result<Handshake, String>,
    r: Result<(), Error>,
)
    requires
        call_ensures(check_handshake, (answer,), r),
    ensures
        r is Ok <==> answer == Ok::<Handshake, String>(Handshake::Accepted),
        answer matches Ok(Handshake::Redirect { status_code }) ==> r->Err_0 == Error::Transport(
            TransportError::Code(status_code),
        ),
        answer matches Ok(Handshake::Rejected { status_code }) ==> r->Err_0 == Error::Transport(
            TransportError::Code(status_code),
        ),
        answer matches Err(text) ==> says(r->Err_0, "Handshake failed: "@ + text@),
{
}

/// Whether what is delivered is the news of a notification for a subscription that has a
/// receiver, and nothing only where there is no such news.
pub open spec fn brings_news<P>(
    subscribed: Set<Seq<char>>,
    notification: NotificationView,
    r: Option<Delivery<P>>,
) -> bool {
    &&& r is Some ==> (r->Some_0 matches Delivery::Notice { id, value } && subscribed.contains(
        id@,
    ) && has_news(notification, id@, value))
    &&& r is None ==> forall|id: Seq<char>, value: Value| #[trigger]
        has_news(notification, id, value) ==> !subscribed.contains(id)
}

/// A notification brings its news to the subscription that it names, if that has a receiver.
pub proof fn a_notification_brings_its_news<P, S>(
    subscriptions: &Subscriptions<S>,
    notification: &Notification,
    r: Option<Delivery<P>>,
)
    requires
        call_ensures(handle_notification::<P, S>, (subscriptions, notification), r),
    ensures
        brings_news(subscriptions@.dom(), notification@, r),
{
}

/// Whether responses that came together were handed out. Whoever waits for the request whose
/// number the first of them carries gets what each of them says, in their order and whatever they
/// say, and waits no longer. Nobody else gets anything, and everybody else goes on waiting.
pub open spec fn hands_out<P>(
    before: Map<RequestId, P>,
    outputs: Seq<OutputView>,
    r: Option<Delivery<P>>,
    after: Map<RequestId, P>,
) -> bool {
    &&& r is Some <==> outputs.len() > 0 && exists|id: RequestId|
        #[trigger] carries(outputs[0].id, id) && before.dom().contains(id)
    &&& r is None ==> after == before
    &&& r is Some ==> forall|id: RequestId| #[trigger]
        carries(outputs[0].id, id) ==> {
            &&& r->Some_0 matches Delivery::Answer { to, results } && {
                &&& to == before[id]
                &&& results is Ok
                &&& results->Ok_0@.len() == outputs.len()
                &&& forall|i: int|
                    0 <= i < outputs.len() ==> tells(#[trigger] results->Ok_0@[i], outputs[i])
            }
            &&& !after.dom().contains(id)
            &&& forall|other: RequestId|
                other != id ==> (#[trigger] after.dom().contains(other) <==> before.dom().contains(
                    other,
                )) && (before.dom().contains(other) ==> after[other] == before[other])
        }
}

proof fn lemma_hands_out<P>(
    before: Map<RequestId, P>,
    outputs: Seq<OutputView>,
    r: Option<Delivery<P>>,
    after: Map<RequestId, P>,
)
    requires
        after == outputs_dispatched(before, outputs).pending,
        super::delivery_view(r) == outputs_dispatched(before, outputs).delivery,
    ensures
        hands_out(before, outputs, r, after),
{
    if outputs.len() > 0 {
        assert(forall|id: RequestId| #[trigger]
            carries(outputs[0].id, id) <==> request_of_id(outputs[0].id) == Some(id));
        if outputs[0].id is Num {
            let id = outputs[0].id->Num_0 as RequestId;
            assert(carries(outputs[0].id, id));
            if let Some(Delivery::Answer { to, results }) = r {
                let all = results_view(results->Ok_0@);
                assert(all.len() == results->Ok_0@.len());
                assert(all == results_of_outputs(outputs));
                assert forall|i: int| 0 <= i < outputs.len() implies tells(
                    #[trigger] results->Ok_0@[i],
                    outputs[i],
                ) by {
                    assert(all[i] == crate::error::result_view(results->Ok_0@[i]));
                    assert(all[i] == result_of_output(outputs[i]));
                }
            }
        }
    }
}

/// Responses that come together go to whoever waits for the first of them, successes and failures
/// alike.
pub proof fn responses_go_to_who_waits_for_the_first<P>(
    pending: &mut BTreeMap<RequestId, P>,
    outputs: Vec<Output>,
    r: Option<Delivery<P>>,
)
    requires
        call_ensures(handle_outputs::<P>, (pending, outputs), r),
    ensures
        hands_out(old(pending)@, outputs_view(outputs@), r, final(pending)@),
        outputs_view(outputs@).len() == outputs@.len(),
        forall|j: int| 0 <= j < outputs@.len() ==> outputs_view(outputs@)[j] == (
        #[trigger] outputs@[j])@,
{
    lemma_hands_out(old(pending)@, outputs_view(outputs@), r, final(pending)@);
}

/// The responses that bytes hold, if they read as some.
pub open spec fn outputs_read(raw: RawResponseView) -> Seq<OutputView> {
    match raw {
        RawResponseView::Single(output) => seq![output_parts(output)],
        RawResponseView::Batch(outputs) => Seq::new(
            outputs.len(),
            |i: int| output_parts(outputs[i]),
        ),
    }
}

/// Whether a message from the node was dealt with: a notification brings its news and answers
/// nobody, responses are handed out, and anything else is ignored.
pub open spec fn deals_with<P>(
    data: Seq<u8>,
    subscribed: Set<Seq<char>>,
    before: Map<RequestId, P>,
    r: Option<Delivery<P>>,
    after: Map<RequestId, P>,
) -> bool {
    &&& notification_of_bytes(data) matches Ok(notification) ==> brings_news(
        subscribed,
        notification,
        r,
    ) && after == before
    &&& notification_of_bytes(data) is Err && response_of_bytes(data) is Ok ==> hands_out(
        before,
        outputs_read(response_of_bytes(data)->Ok_0),
        r,
        after,
    )
    &&& notification_of_bytes(data) is Err && response_of_bytes(data) is Err ==> r is None && after
        == before
}

proof fn lemma_deals_with<P>(
    data: Seq<u8>,
    subscribed: Set<Seq<char>>,
    before: Map<RequestId, P>,
    r: Option<Delivery<P>>,
    after: Map<RequestId, P>,
)
    requires
        after == super::message_dispatched(before, subscribed, data).pending,
        super::delivery_view(r) == super::message_dispatched(before, subscribed, data).delivery,
    ensures
        deals_with(data, subscribed, before, r, after),
{
    if notification_of_bytes(data) is Err {
        if let Ok(raw) = response_of_bytes(data) {
            assert(crate::helpers::opened(raw).outputs() =~= outputs_read(raw));
            lemma_hands_out(before, outputs_read(raw), r, after);
        }
    }
}

/// Every message from the node is dealt with for what it is.
pub proof fn a_message_is_dealt_with_for_what_it_is<P, S>(
    data: &[u8],
    subscriptions: &Subscriptions<S>,
    pending: &mut BTreeMap<RequestId, P>,
    r: Option<Delivery<P>>,
)
    requires
        call_ensures(handle_message::<P, S>, (data, subscriptions, pending), r),
    ensures
        deals_with(data@, subscriptions@.dom(), old(pending)@, r, final(pending)@),
{
    lemma_deals_with(data@, subscriptions@.dom(), old(pending)@, r, final(pending)@);
}

/// The same holds of a message that a connection receives. Anything but a message ends the
/// connection and changes nothing, and a message never ends it.
pub proof fn a_received_message_is_dealt_with<P, S>(
    task: &mut WsServerTask<P, S>,
    received: Option<Result<Vec<u8>, String>>,
    r: Step<P>,
)
    requires
        call_ensures(WsServerTask::<P, S>::on_received, (task, received), r),
    ensures
        final(task)@.subscriptions == old(task)@.subscriptions,
        match received {
            Some(Ok(data)) => match r {
                Step::Deliver(delivery) => deals_with(
                    data@,
                    old(task)@.subscriptions.dom(),
                    old(task)@.pending,
                    Some(delivery),
                    final(task)@.pending,
                ),
                Step::Proceed => deals_with(
                    data@,
                    old(task)@.subscriptions.dom(),
                    old(task)@.pending,
                    None,
                    final(task)@.pending,
                ),
                Step::Stop => false,
            },
            _ => r is Stop && final(task)@.pending == old(task)@.pending,
        },
{
    if let Some(Ok(data)) = received {
        let delivered: Option<Delivery<P>> = match r {
            Step::Deliver(delivery) => Some(delivery),
            _ => None,
        };
        lemma_deals_with(
            data@,
            old(task)@.subscriptions.dom(),
            old(task)@.pending,
            delivered,
            final(task)@.pending,
        );
    }
}

/// A fresh connection waits for nothing and has no subscriptions.
pub proof fn a_fresh_connection_is_empty<P, S>(
    task: WsServerTask<P, S>,
    id: RequestId,
    waits: bool,
    subscription: &SubscriptionId,
    sink: Option<&S>,
)
    requires
        call_ensures(WsServerTask::<P, S>::new, (), task),
        call_ensures(WsServerTask::<P, S>::awaits, (&task, id), waits),
        call_ensures(WsServerTask::<P, S>::receiver, (&task, subscription), sink),
    ensures
        !waits,
        sink is None,
        task@.pending.dom() == Set::<RequestId>::empty(),
        task@.subscriptions.dom() == Set::<Seq<char>>::empty(),
{
}

/// What a connection says of itself is what it holds.
pub proof fn a_connection_tells_what_it_holds<P, S>(
    task: &WsServerTask<P, S>,
    id: RequestId,
    waits: bool,
    subscription: &SubscriptionId,
    sink: Option<&S>,
)
    requires
        call_ensures(WsServerTask::<P, S>::awaits, (task, id), waits),
        call_ensures(WsServerTask::<P, S>::receiver, (task, subscription), sink),
    ensures
        waits <==> task@.pending.dom().contains(id),
        sink is Some <==> task@.subscriptions.dom().contains(subscription@),
        sink is Some ==> *sink->Some_0 == task@.subscriptions[subscription@],
{
}

/// Whether two maps agree everywhere but at one key.
pub open spec fn agree_but_at<K, V>(before: Map<K, V>, after: Map<K, V>, key: K) -> bool {
    forall|other: K|
        other != key ==> (#[trigger] after.dom().contains(other) <==> before.dom().contains(other))
            && (before.dom().contains(other) ==> after[other] == before[other])
}

/// A message of the client does what it asks for and touches nothing else: a request is sent as
/// it is and waited for, a subscription comes to its receiver or is gone, and every other request
/// and subscription stays as it was. Only the end of the messages ends the connection.
pub proof fn a_message_of_the_client_touches_what_it_names<P, S>(
    task: &mut WsServerTask<P, S>,
    message: Option<TransportMessage<P, S>>,
    r: Action,
)
    requires
        call_ensures(WsServerTask::<P, S>::on_message, (task, message), r),
    ensures
        match message {
            Some(TransportMessage::Request { id, request, sender }) => {
                &&& r matches Action::Send { id: sent, text } && sent == id && text@ == request@
                &&& final(task)@.pending.dom().contains(id)
                &&& final(task)@.pending[id] == sender
                &&& agree_but_at(old(task)@.pending, final(task)@.pending, id)
                &&& final(task)@.subscriptions == old(task)@.subscriptions
            },
            Some(TransportMessage::Subscribe { id, sink }) => {
                &&& r is Proceed
                &&& final(task)@.pending == old(task)@.pending
                &&& final(task)@.subscriptions.dom().contains(id@)
                &&& final(task)@.subscriptions[id@] == sink
                &&& agree_but_at(old(task)@.subscriptions, final(task)@.subscriptions, id@)
            },
            Some(TransportMessage::Unsubscribe { id }) => {
                &&& r is Proceed
                &&& final(task)@.pending == old(task)@.pending
                &&& !final(task)@.subscriptions.dom().contains(id@)
                &&& agree_but_at(old(task)@.subscriptions, final(task)@.subscriptions, id@)
            },
            None => r is Stop && final(task)@ == old(task)@,
        },
{
}

/// Whether a request was sent touches that request alone: one that was not sent is not waited for,
/// and one that was sent is waited for as before.
pub proof fn an_unsent_request_is_not_waited_for<P, S>(
    task: &mut WsServerTask<P, S>,
    id: RequestId,
    done: bool,
)
    requires
        call_ensures(WsServerTask::<P, S>::on_sent, (task, id, done), ()),
    ensures
        final(task)@.subscriptions == old(task)@.subscriptions,
        done ==> final(task)@.pending == old(task)@.pending,
        !done ==> !final(task)@.pending.dom().contains(id) && agree_but_at(
            old(task)@.pending,
            final(task)@.pending,
            id,
        ),
{
}

/// Whoever waits for a response that cannot come is told so.
pub proof fn who_waits_in_vain_is_told<T>(gone: T, e: Error)
    requires
        call_ensures(dropped_err::<T>, (gone,), e),
    ensures
        says(e, "Cannot send request. Internal task finished."@),
{
}

/// A single call comes to the first result that came, whatever it is, and only where none came at
/// all is that an error. What failed as a whole stays so.
pub proof fn a_single_call_takes_the_first_result(response: BatchResult, r: SingleResult)
    requires
        call_ensures(batch_to_single, (response,), r),
    ensures
        match response {
            Ok(results) => if results@.len() > 0 {
                match results@[0] {
                    Ok(value) => r == Ok::<Value, Error>(value),
                    Err(e) => r is Err && r->Err_0@ == e@,
                }
            } else {
                r is Err && objects(r->Err_0, "Expected single, got batch."@)
            },
            Err(e) => r is Err && r->Err_0@ == e@,
        },
{
    if let Ok(results) = response {
        if results@.len() > 0 {
            assert(results_view(results@)[0] == crate::error::result_view(results@[0]));
        }
    }
}

/// A batch comes to all that came, as it came.
pub proof fn a_batch_takes_all_results(response: BatchResult, r: BatchResult)
    requires
        call_ensures(batch_to_batch, (response,), r),
    ensures
        r == response,
{
}

/// A response whose request was sent is waited for through its receiver, and one whose request
/// was not sent fails for that reason and is done with.
pub proof fn a_sent_request_is_waited_for<F, T>(
    sent: Result<F, Error>,
    extract: T,
    response: Response<F, T>,
    polled: &mut Response<F, T>,
    step: Poll,
    spent_before: bool,
    spent: bool,
    waiting: &mut Response<F, T>,
    receiver: Option<&mut F>,
)
    requires
        call_ensures(Response::<F, T>::new, (sent, extract), response),
        call_ensures(Response::<F, T>::is_spent, (&response,), spent_before),
        *old(polled) == response,
        call_ensures(Response::<F, T>::advance, (polled,), step),
        call_ensures(Response::<F, T>::is_spent, (final(polled),), spent),
        *old(waiting) == *final(polled),
        call_ensures(Response::<F, T>::receiver, (waiting,), receiver),
    ensures
        !spent_before,
        match sent {
            Ok(held) => step is Wait && !spent && receiver is Some && *receiver->Some_0 == held,
            Err(e) => spent && receiver is None && (step matches Poll::Fail(error) && error@ == e@),
        },
{
}

/// A response that is waited for goes on being waited for, through the same receiver.
pub proof fn waiting_goes_on<F, T>(
    response: &mut Response<F, T>,
    held: F,
    step: Poll,
    later: &mut Response<F, T>,
    receiver: Option<&mut F>,
)
    requires
        call_ensures(Response::<F, T>::advance, (response,), step),
        old(response).state() == super::ResponseState::Waiting(held),
        *old(later) == *final(response),
        call_ensures(Response::<F, T>::receiver, (later,), receiver),
    ensures
        step is Wait,
        receiver is Some,
        *receiver->Some_0 == held,
{
}

/// What came is handed to whatever takes the result from it, and where nothing can come that is
/// told.
pub proof fn what_came_is_taken<F, T, R>(
    sent: Result<F, Error>,
    extract: T,
    response: Response<F, T>,
    received: Result<BatchResult, Canceled>,
    r: Result<R, Error>,
) where T: Fn(BatchResult) -> Result<R, Error>
    requires
        call_ensures(Response::<F, T>::new, (sent, extract), response),
        call_ensures(Response::<F, T>::settle::<R>, (&response, received), r),
    ensures
        match received {
            Ok(came) => call_ensures(extract, (came,), r),
            Err(_) => r is Err && says(
                r->Err_0,
                "Cannot send request. Internal task finished."@,
            ),
        },
{
}

/// A client numbers its calls from one, and each call holds its method and its parameters under
/// the next id.
pub proof fn calls_are_numbered_from_one(
    ws: WebSocket,
    client: &mut WebSocket,
    method: &str,
    params: Vec<Value>,
    r: (RequestId, jsonrpc_core::Call),
    later: &mut WebSocket,
    next: (RequestId, jsonrpc_core::Call),
)
    requires
        call_ensures(WebSocket::new, (), ws),
        call_ensures(WebSocket::prepare, (client, method, params), r),
        *old(later) == *final(client),
        call_ensures(WebSocket::prepare, (later, method, params), next),
    ensures
        *old(client) == ws ==> r.0 == 1,
        r.0 < usize::MAX ==> next.0 == r.0 + 1,
        r.0 == usize::MAX ==> next.0 == 0,
        r.1 == call_of(
            MethodCallView {
                jsonrpc: Some(Version::V2),
                method: method@,
                params: ParamsView::Array(params@),
                id: IdView::Num(r.0 as u64),
            },
        ),
{
    crate::ids::lemma_second_id(r.0);
}

/// Whether a message has this text sent for this request, and this sender waits for the response.
pub open spec fn has_sent<P, S>(
    message: TransportMessage<P, S>,
    id: RequestId,
    text: Seq<char>,
    sender: P,
) -> bool {
    message matches TransportMessage::Request { id: sent, request, sender: to } && sent == id
        && request@ == text && to == sender
}

/// A request is sent as it is, under its id.
pub proof fn a_request_is_sent_under_its_id<P, S>(
    id: RequestId,
    request: Request,
    sender: P,
    r: TransportMessage<P, S>,
)
    requires
        call_ensures(send_request::<P, S>, (id, request, sender), r),
    ensures
        match request {
            Request::Single(call) => has_sent(
                r,
                id,
                request_json(RequestView::Single(call)),
                sender,
            ),
            Request::Batch(calls) => has_sent(
                r,
                id,
                request_json(RequestView::Batch(calls@)),
                sender,
            ),
        },
{
}

/// A call is sent alone, under its id.
pub proof fn a_call_is_sent_under_its_id<P, S>(
    id: RequestId,
    call: jsonrpc_core::Call,
    sender: P,
    r: TransportMessage<P, S>,
)
    requires
        call_ensures(send::<P, S>, (id, call, sender), r),
    ensures
        has_sent(r, id, request_json(RequestView::Single(call)), sender),
{
}

/// A batch is sent with all its calls in their order, under the id of the first. One without
/// calls is sent too, under zero.
pub proof fn a_batch_is_sent_under_its_first_id<P, S>(
    requests: Vec<(RequestId, jsonrpc_core::Call)>,
    sender: P,
    r: TransportMessage<P, S>,
)
    requires
        call_ensures(send_batch::<P, S>, (requests, sender), r),
    ensures
        exists|calls: Seq<jsonrpc_core::Call>|
            {
                &&& calls.len() == requests@.len()
                &&& forall|i: int|
                    0 <= i < requests@.len() ==> #[trigger] calls[i] == requests@[i].1
                &&& requests@.len() > 0 ==> has_sent(
                    r,
                    requests@[0].0,
                    #[trigger] request_json(RequestView::Batch(calls)),
                    sender,
                )
                &&& requests@.len() == 0 ==> has_sent(
                    r,
                    0,
                    request_json(RequestView::Batch(calls)),
                    sender,
                )
            },
{
    let calls = super::batch_calls(requests@);
    assert(calls.len() == requests@.len());
    assert(forall|i: int| 0 <= i < requests@.len() ==> #[trigger] calls[i] == requests@[i].1);
    assert(request_json(RequestView::Batch(calls)) == r->request@);
}

/// Several subscriptions live side by side: subscribing or unsubscribing one of them leaves every
/// other with the receiver that it had, or without one.
pub proof fn subscriptions_live_side_by_side<P, S>(
    task: WsServerTaskView<P, S>,
    id: SubscriptionId,
    sink: S,
    other: Seq<char>,
)
    requires
        other != id@,
    ensures
        ({
            let on = task.told(Some(TransportMessage::Subscribe { id, sink })).subscriptions;
            let off = task.told(Some(TransportMessage::Unsubscribe { id })).subscriptions;
            &&& on.dom().contains(other) <==> task.subscriptions.dom().contains(other)
            &&& off.dom().contains(other) <==> task.subscriptions.dom().contains(other)
            &&& task.subscriptions.dom().contains(other) ==> on[other] == task.subscriptions[other]
                && off[other] == task.subscriptions[other]
        }),
{
}

/// A message that is no notification but reads as responses is the answer to the request whose
/// number the first of them carries, if that is waited for. Whoever waits gets what each response
/// says, success or failure, and waits no longer.
pub proof fn a_message_answers_the_request_it_numbers<P, S>(
    task: WsServerTaskView<P, S>,
    data: Seq<u8>,
    raw: RawResponseView,
    id: RequestId,
    i: int,
)
    requires
        notification_of_bytes(data) is Err,
        response_of_bytes(data) == Ok::<RawResponseView, Seq<char>>(raw),
        0 <= i < outputs_read(raw).len(),
        carries(outputs_read(raw)[0].id, id),
        task.pending.dom().contains(id),
    ensures
        ({
            let all = task.dispatch(data);
            &&& !all.pending.dom().contains(id)
            &&& all.delivery matches Some(DeliveryView::Answer { to, results }) && {
                &&& to == task.pending[id]
                &&& results is Ok
                &&& results->Ok_0.len() == outputs_read(raw).len()
                &&& match outputs_read(raw)[i].outcome {
                    Ok(value) => results->Ok_0[i] == Ok::<Value, crate::error::ErrorView>(value),
                    Err(error) => results->Ok_0[i] == Err::<Value, crate::error::ErrorView>(
                        crate::error::ErrorView::Rpc(error),
                    ),
                }
            }
        }),
{
    assert(crate::helpers::opened(raw).outputs() =~= outputs_read(raw));
    assert(request_of_id(outputs_read(raw)[0].id) == Some(id));
}

} // verus!
