//! What holds of every call of what the transports share: texts, ids, errors, messages and
//! subscriptions.
use jsonrpc_core::Error as RpcError;
use serde_json::Value;
use vstd::prelude::*;

use crate::api::SubscriptionId;
use crate::error::{Error, TransportError};
use crate::helpers::{
    build_request, method_call, to_notification_from_slice, to_response_from_slice,
    to_result_from_output, to_results_from_outputs, to_string,
};
use crate::ids::RequestIds;
use crate::json::{
    call_of, entries, json_kind, notification_of_bytes, output_parts, request_json,
    response_of_bytes, rpc_error_text, JsonKind, RawResponseView,
};
use crate::rpc::{
    outputs_view, Id, IdView, MethodCall, MethodCallView, Notification, NotificationView, Output,
    OutputView, Params, ParamsView, Request, RequestView, Response, Version,
};
use crate::subscriptions::{notice, Subscriptions};
use crate::text::{decimal, decimal_digits, join};
use crate::RequestId;

verus! {

/// The number that a text of decimal digits spells.
pub open spec fn number_spelt(text: Seq<char>) -> nat
    decreases text.len(),
{
    if text.len() == 0 {
        0
    } else {
        number_spelt(text.drop_last()) * 10 + (text.last() as nat - '0' as nat) as nat
    }
}

/// Whether a text spells a number in the usual way: by digits, and without leading zeros.
pub open spec fn spells(text: Seq<char>, n: nat) -> bool {
    &&& text.len() > 0
    &&& forall|i: int| 0 <= i < text.len() ==> '0' <= #[trigger] text[i] <= '9'
    &&& text.len() > 1 ==> text[0] != '0'
    &&& number_spelt(text) == n
}

/// The decimal notation of a number spells it.
pub proof fn digits_spell_their_number(n: nat)
    ensures
        spells(decimal_digits(n), n),
    decreases n,
{
    let text = decimal_digits(n);
    if n >= 10 {
        digits_spell_their_number(n / 10);
        let front = decimal_digits(n / 10);
        assert(text.drop_last() =~= front);
        assert(forall|i: int| 0 <= i < front.len() ==> text[i] == front[i]);
        if front.len() == 1 {
            assert(number_spelt(front.drop_last()) == 0);
            assert(front[0] != '0');
        }
    } else {
        assert(text.drop_last() =~= Seq::<char>::empty());
        assert(number_spelt(text.drop_last()) == 0);
    }
}

/// A number that is written down can be read back.
pub proof fn a_written_number_reads_back(n: u64, s: String)
    requires
        call_ensures(decimal, (n,), s),
    ensures
        spells(s@, n as nat),
{
    digits_spell_their_number(n as nat);
}

/// Two texts that are joined are both there, the one behind the other, and nothing else is.
pub proof fn joined_texts_are_both_there(first: &str, second: &str, s: String)
    requires
        call_ensures(join, (first, second), s),
    ensures
        s@.len() == first@.len() + second@.len(),
        forall|i: int| 0 <= i < first@.len() ==> s@[i] == first@[i],
        forall|i: int| 0 <= i < second@.len() ==> s@[first@.len() + i] == second@[i],
{
}

/// A counter starts where it is told to.
pub proof fn a_counter_starts_where_it_is_told(
    first: RequestId,
    ids: RequestIds,
    counter: &mut RequestIds,
    id: RequestId,
)
    requires
        call_ensures(RequestIds::starting_at, (first,), ids),
        *old(counter) == ids,
        call_ensures(RequestIds::next_id, (counter,), id),
    ensures
        id == first,
{
}

/// Each id of a counter is one above the id before it, and behind the largest comes zero.
pub proof fn each_id_is_one_above_the_last(
    counter: &mut RequestIds,
    id: RequestId,
    later: &mut RequestIds,
    next: RequestId,
)
    requires
        call_ensures(RequestIds::next_id, (counter,), id),
        *old(later) == *final(counter),
        call_ensures(RequestIds::next_id, (later,), next),
    ensures
        id < usize::MAX ==> next == id + 1,
        id == usize::MAX ==> next == 0,
{
    crate::ids::lemma_second_id(id);
}

/// A subscription id gives back the text that it was made from, and two are the same exactly
/// where their texts are.
pub proof fn a_subscription_id_is_its_text(
    text: &str,
    id: SubscriptionId,
    read: &str,
    other: &SubscriptionId,
    other_text: &str,
    same: bool,
)
    requires
        call_ensures(SubscriptionId::new, (text,), id),
        call_ensures(SubscriptionId::as_str, (&id,), read),
        call_ensures(SubscriptionId::as_str, (other,), other_text),
        call_ensures(SubscriptionId::same, (&id, other), same),
    ensures
        read@ == text@,
        same <==> text@ == other_text@,
{
}

/// A subscription id that is made from a text in another way, or copied, has that text too.
pub proof fn a_subscription_id_keeps_its_text(
    text: String,
    id: SubscriptionId,
    slice: &str,
    other: SubscriptionId,
    source: &SubscriptionId,
    copy: SubscriptionId,
)
    requires
        call_ensures(<SubscriptionId as From<String>>::from, (text,), id),
        call_ensures(<SubscriptionId as From<&str>>::from, (slice,), other),
        call_ensures(<SubscriptionId as Clone>::clone, (source,), copy),
    ensures
        id@ == text@,
        other@ == slice@,
        copy@ == source@,
{
}

/// How an error of the connection reads: its status code, or its description, whole.
pub proof fn a_transport_error_reads_as_what_it_holds(error: &TransportError, s: String)
    requires
        call_ensures(TransportError::to_string, (error,), s),
    ensures
        match error {
            TransportError::Code(code) => exists|digits: Seq<char>|
                spells(digits, *code as nat) && s@ == "code "@ + digits,
            TransportError::Message(text) => s@ == "message "@ + text@,
        },
{
    if let TransportError::Code(code) = error {
        digits_spell_their_number(*code as nat);
        let digits = decimal_digits(*code as nat);
        assert(spells(digits, *code as nat) && s@ == "code "@ + digits);
    }
}

/// How an error reads: what kind it is, and behind that what it holds, whole.
pub proof fn an_error_reads_as_what_it_holds(error: &Error, s: String)
    requires
        call_ensures(Error::to_string, (error,), s),
    ensures
        match error {
            Error::InvalidResponse(text) => s@ == "Got invalid response: "@ + text@,
            Error::Transport(TransportError::Message(text)) => s@ == "Transport error: "@
                + "message "@ + text@,
            Error::Transport(TransportError::Code(code)) => exists|digits: Seq<char>|
                spells(digits, *code as nat) && s@ == "Transport error: "@ + "code "@ + digits,
            Error::Rpc(inner) => s@ == "RPC error: "@ + rpc_error_text(*inner),
        },
{
    match error {
        Error::Transport(TransportError::Code(code)) => {
            digits_spell_their_number(*code as nat);
            let digits = decimal_digits(*code as nat);
            assert("Transport error: "@ + ("code "@ + digits) =~= "Transport error: "@ + "code "@
                + digits);
            assert(spells(digits, *code as nat) && s@ == "Transport error: "@ + "code "@ + digits);
        },
        Error::Transport(TransportError::Message(text)) => {
            assert("Transport error: "@ + ("message "@ + text@) =~= "Transport error: "@
                + "message "@ + text@);
        },
        _ => {},
    }
}

/// Whether an error is a failure of the connection with this description.
pub open spec fn says(error: Error, text: Seq<char>) -> bool {
    error matches Error::Transport(TransportError::Message(held)) && held@ == text
}

/// Whether an error is that a response makes no sense, with this description.
pub open spec fn objects(error: Error, text: Seq<char>) -> bool {
    error matches Error::InvalidResponse(held) && held@ == text
}

/// A description is kept whole.
pub proof fn a_message_keeps_its_text(text: String, e: Error)
    requires
        call_ensures(Error::message, (text,), e),
    ensures
        says(e, text@),
{
}

/// The error object of the node is kept as it came.
pub proof fn an_error_object_is_kept(error: RpcError, e: Error)
    requires
        call_ensures(<Error as From<RpcError>>::from, (error,), e),
    ensures
        e == Error::Rpc(error),
{
}

/// A copy of an error holds what the error holds.
pub proof fn a_copied_error_is_the_same(error: &Error, copy: Error)
    requires
        call_ensures(<Error as Clone>::clone, (error,), copy),
    ensures
        match error {
            Error::InvalidResponse(text) => objects(copy, text@),
            Error::Transport(TransportError::Code(code)) => copy == Error::Transport(
                TransportError::Code(*code),
            ),
            Error::Transport(TransportError::Message(text)) => says(copy, text@),
            Error::Rpc(inner) => copy == Error::Rpc(*inner),
        },
{
}

/// A copy of a failure of the connection holds what the failure holds.
pub proof fn a_copied_transport_error_is_the_same(error: &TransportError, copy: TransportError)
    requires
        call_ensures(<TransportError as Clone>::clone, (error,), copy),
    ensures
        match error {
            TransportError::Code(code) => copy == TransportError::Code(*code),
            TransportError::Message(text) => copy matches TransportError::Message(held) && held@
                == text@,
        },
{
}

/// The contents of an error are all that it holds.
pub proof fn the_contents_of_an_error_are_all_of_it(error: Error, other: Error)
    requires
        error@ == other@,
    ensures
        match error {
            Error::InvalidResponse(text) => objects(other, text@),
            Error::Transport(TransportError::Code(code)) => other == Error::Transport(
                TransportError::Code(code),
            ),
            Error::Transport(TransportError::Message(text)) => says(other, text@),
            Error::Rpc(inner) => other == Error::Rpc(inner),
        },
{
}

/// Whether an id carries the number of a request.
pub open spec fn carries(id: IdView, request: RequestId) -> bool {
    id matches IdView::Num(number) && number as RequestId == request
}

/// Whether a result is what a response says of its call: the value that came, whatever it is, or
/// the error object that came.
pub open spec fn tells(result: Result<Value, Error>, output: OutputView) -> bool {
    match output.outcome {
        Ok(value) => result == Ok::<Value, Error>(value),
        Err(error) => result == Err::<Value, Error>(Error::Rpc(error)),
    }
}

/// The contents of a response are all that it holds: what came of the call, and its id.
pub proof fn the_contents_of_a_response_are_all_of_it(output: Output)
    ensures
        match output {
            Output::Success(success) => {
                &&& output@.outcome == Ok::<Value, RpcError>(success.result)
                &&& output@.jsonrpc == success.jsonrpc
                &&& output@.id == success.id@
            },
            Output::Failure(failure) => {
                &&& output@.outcome == Err::<Value, RpcError>(failure.error)
                &&& output@.jsonrpc == failure.jsonrpc
                &&& output@.id == failure.id@
            },
        },
{
}

/// The contents of an id tell numbers, texts and the missing id apart.
pub proof fn the_contents_of_an_id_are_all_of_it(id: Id)
    ensures
        match id {
            Id::Null => id@ is Null,
            Id::Num(number) => id@ == IdView::Num(number),
            Id::Str(text) => id@ == IdView::Str(text@),
        },
{
}

/// A call comes to what its response says: the value, whatever it is, or the error object.
pub proof fn a_call_comes_to_what_its_response_says(output: Output, r: Result<Value, Error>)
    requires
        call_ensures(to_result_from_output, (output,), r),
    ensures
        match output {
            Output::Success(success) => r == Ok::<Value, Error>(success.result),
            Output::Failure(failure) => r == Err::<Value, Error>(Error::Rpc(failure.error)),
        },
        tells(r, output@),
{
}

/// Several calls come to what their responses say, each at the place of its response.
pub proof fn calls_come_to_what_their_responses_say(
    outputs: Vec<Output>,
    r: Result<Vec<Result<Value, Error>>, Error>,
)
    requires
        call_ensures(to_results_from_outputs, (outputs,), r),
    ensures
        r is Ok,
        r->Ok_0@.len() == outputs@.len(),
        forall|i: int| 0 <= i < outputs@.len() ==> tells(#[trigger] r->Ok_0@[i], outputs@[i]@),
{
    let results = crate::error::results_view(r->Ok_0@);
    assert(results.len() == r->Ok_0@.len());
    assert forall|i: int| 0 <= i < outputs@.len() implies tells(
        #[trigger] r->Ok_0@[i],
        outputs@[i]@,
    ) by {
        assert(outputs_view(outputs@)[i] == outputs@[i]@);
        assert(results[i] == crate::error::result_view(r->Ok_0@[i]));
    }
}

/// A call names its method, its parameters in their order, and its id.
pub proof fn a_call_holds_what_it_was_built_from(
    id: usize,
    method: &str,
    params: Vec<Value>,
    call: MethodCall,
    built: jsonrpc_core::Call,
)
    requires
        call_ensures(method_call, (id, method, params), call),
        call_ensures(build_request, (id, method, params), built),
    ensures
        call.jsonrpc == Some(Version::V2),
        call.method@ == method@,
        call.params matches Params::Array(values) && values@ == params@,
        call.id == Id::Num(id as u64),
        built == call_of(
            MethodCallView {
                jsonrpc: Some(Version::V2),
                method: method@,
                params: ParamsView::Array(params@),
                id: IdView::Num(id as u64),
            },
        ),
{
}

/// A call is sent as it is, and a batch with each of its calls in their order.
pub proof fn a_request_is_sent_as_it_is(request: &Request, s: String)
    requires
        call_ensures(to_string, (request,), s),
    ensures
        match request {
            Request::Single(call) => s@ == request_json(RequestView::Single(*call)),
            Request::Batch(calls) => s@ == request_json(RequestView::Batch(calls@)),
        },
{
}

/// Bytes that read as a notification give it, and all others give why not.
pub proof fn a_notification_is_read_as_it_came(bytes: &[u8], r: Result<Notification, Error>)
    requires
        call_ensures(to_notification_from_slice, (bytes,), r),
    ensures
        match notification_of_bytes(bytes@) {
            Ok(view) => r is Ok && r->Ok_0@ == view,
            Err(text) => r is Err && objects(r->Err_0, text),
        },
{
}

/// The contents of a notification are all that it holds.
pub proof fn the_contents_of_a_notification_are_all_of_it(notification: Notification)
    ensures
        notification@.jsonrpc == notification.jsonrpc,
        notification@.method == notification.method@,
        match notification.params {
            Params::Nothing => notification@.params is Nothing,
            Params::Array(values) => notification@.params == ParamsView::Array(values@),
            Params::Object(members) => notification@.params == ParamsView::Object(
                entries(members),
            ),
        },
{
}

/// Bytes that read as a response give it, one output or all of them in their order, whatever the
/// outputs say. All others give why not.
pub proof fn a_response_is_read_as_it_came(bytes: &[u8], r: Result<Response, Error>)
    requires
        call_ensures(to_response_from_slice, (bytes,), r),
    ensures
        match response_of_bytes(bytes@) {
            Ok(RawResponseView::Single(raw)) => {
                &&& r is Ok
                &&& r->Ok_0 matches Response::Single(output) && output@ == output_parts(raw)
            },
            Ok(RawResponseView::Batch(raws)) => {
                &&& r is Ok
                &&& r->Ok_0 matches Response::Batch(outputs) && {
                    &&& outputs@.len() == raws.len()
                    &&& forall|i: int|
                        0 <= i < raws.len() ==> (#[trigger] outputs@[i])@ == output_parts(raws[i])
                }
            },
            Err(text) => r is Err && objects(r->Err_0, text),
        },
{
    if let Ok(RawResponseView::Batch(raws)) = response_of_bytes(bytes@) {
        if let Ok(Response::Batch(outputs)) = r {
            assert(outputs_view(outputs@).len() == outputs@.len());
            assert forall|i: int| 0 <= i < raws.len() implies (#[trigger] outputs@[i])@
                == output_parts(raws[i]) by {
                assert(outputs_view(outputs@)[i] == outputs@[i]@);
            }
        }
    }
}

/// A response holds its one output, or all outputs of its batch in their order, and nothing else.
pub proof fn a_response_holds_its_outputs(response: Response, outputs: Vec<Output>)
    requires
        call_ensures(Response::into_outputs, (response,), outputs),
    ensures
        match response {
            Response::Single(output) => outputs@.len() == 1 && outputs@[0]@ == output@,
            Response::Batch(batch) => {
                &&& outputs@.len() == batch@.len()
                &&& forall|i: int|
                    0 <= i < batch@.len() ==> (#[trigger] outputs@[i])@ == batch@[i]@
            },
        },
{
    assert(outputs_view(outputs@).len() == outputs@.len());
    assert forall|i: int| 0 <= i < outputs@.len() implies (#[trigger] outputs@[i])@ == outputs_view(
        outputs@,
    )[i] by {}
    if let Response::Batch(batch) = response {
        assert forall|i: int| 0 <= i < batch@.len() implies (#[trigger] outputs@[i])@
            == batch@[i]@ by {
            assert(outputs_view(batch@)[i] == batch@[i]@);
        }
    }
}

/// The id of a response is the id that it came with.
pub proof fn the_id_of_a_response_is_its_own(output: &Output, id: &Id)
    requires
        call_ensures(Output::id, (output,), id),
    ensures
        match output {
            Output::Success(success) => id@ == success.id@,
            Output::Failure(failure) => id@ == failure.id@,
        },
{
}

/// Whether a notification has news for a subscription: its parameters have a member
/// `subscription`, which is that text, and a member `result`, which is the news.
pub open spec fn has_news(notification: NotificationView, id: Seq<char>, value: Value) -> bool {
    notification.params matches ParamsView::Object(members) && {
        &&& members.dom().contains("subscription"@)
        &&& members.dom().contains("result"@)
        &&& json_kind(members["subscription"@]) == JsonKind::Text(id)
        &&& members["result"@] == value
    }
}

/// What is read from a notification is its news, and nothing is read only where it has none.
pub proof fn a_notice_is_the_news(
    notification: &Notification,
    r: Option<(SubscriptionId, Value)>,
    id: Seq<char>,
    value: Value,
)
    requires
        call_ensures(notice, (notification,), r),
    ensures
        r is Some ==> has_news(notification@, r->Some_0.0@, r->Some_0.1),
        has_news(notification@, id, value) ==> r is Some && r->Some_0.0@ == id && r->Some_0.1
            == value,
{
}

/// A new list of subscriptions has no receivers.
pub proof fn no_subscription_comes_by_itself<S>(
    all: Subscriptions<S>,
    id: &SubscriptionId,
    r: Option<&S>,
)
    requires
        call_ensures(Subscriptions::<S>::new, (), all),
        call_ensures(Subscriptions::<S>::get, (&all, id), r),
    ensures
        r is None,
{
}

/// A receiver that is registered is found under its id, and every other id has the receiver that
/// it had.
pub proof fn registering_touches_one_subscription<S>(
    all: &mut Subscriptions<S>,
    id: SubscriptionId,
    sink: S,
    replaced: Option<S>,
    asked: &SubscriptionId,
    before: Option<&S>,
    after: Option<&S>,
)
    requires
        call_ensures(Subscriptions::<S>::get, (old(all), asked), before),
        call_ensures(Subscriptions::<S>::insert, (all, id, sink), replaced),
        call_ensures(Subscriptions::<S>::get, (final(all), asked), after),
    ensures
        asked@ == id@ ==> after == Some(&sink),
        asked@ == id@ ==> (replaced is Some <==> before is Some),
        asked@ == id@ && before is Some ==> *before->Some_0 == replaced->Some_0,
        asked@ != id@ ==> after == before,
{
}

/// A receiver that is removed is not found any more, and every other id has the receiver that it
/// had.
pub proof fn removing_touches_one_subscription<S>(
    all: &mut Subscriptions<S>,
    id: &SubscriptionId,
    removed: Option<S>,
    asked: &SubscriptionId,
    before: Option<&S>,
    after: Option<&S>,
)
    requires
        call_ensures(Subscriptions::<S>::get, (old(all), asked), before),
        call_ensures(Subscriptions::<S>::remove, (all, id), removed),
        call_ensures(Subscriptions::<S>::get, (final(all), asked), after),
    ensures
        asked@ == id@ ==> after is None,
        asked@ == id@ ==> (removed is Some <==> before is Some),
        asked@ == id@ && before is Some ==> *before->Some_0 == removed->Some_0,
        asked@ != id@ ==> after == before,
{
}

} // verus!
