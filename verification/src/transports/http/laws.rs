//! What holds of every batch, whatever the node answers.
use serde_json::Value;
use vstd::prelude::*;

use super::{
    all_numbered, answer_to, batch_of, batch_results, check_body, check_status, client_failure,
    first_missing, handle_batch_response, handle_possible_error_object_for_batched_request,
    id_of_output, refusal, settle, single_result, Http, Post,
};
use crate::address::{lossy_text, url_of_text};
use crate::error::{results_view, Error, TransportError};
use crate::helpers::result_of_output;
use crate::json::{
    call_of, json_kind, output_of_bytes, output_of_value, output_parts, outputs_of_value,
    request_json, rpc_error_text, success_text, value_of_bytes,
};
use crate::laws::{carries, digits_spell_their_number, objects, says, spells, tells};
use crate::rpc::{
    outputs_view, request_of_id, IdView, MethodCallView, Output, OutputView, ParamsView,
    RequestView, Version,
};
use crate::text::decimal_digits;
use crate::RequestId;

verus! {

/// A response that answers a request is what a list says of that request, unless a later one
/// answers it too.
proof fn lemma_answer(outputs: Seq<OutputView>, id: RequestId)
    ensures
        answer_to(outputs, id) is Some <==> exists|j: int|
            0 <= j < outputs.len() && request_of_id((#[trigger] outputs[j]).id) == Some(id),
        answer_to(outputs, id) is Some ==> exists|j: int|
            0 <= j < outputs.len() && answers_last(outputs, j, id) && answer_to(outputs, id)
                == Some(result_of_output(#[trigger] outputs[j])),
    decreases outputs.len(),
{
    if outputs.len() > 0 {
        let front = outputs.drop_last();
        lemma_answer(front, id);
        let n = outputs.len() - 1;
        if request_of_id(outputs.last().id) == Some(id) {
            assert(outputs[n] == outputs.last());
            assert(answers_last(outputs, n, id));
        } else {
            if answer_to(front, id) is Some {
                let j = choose|j: int|
                    0 <= j < front.len() && answers_last(front, j, id) && answer_to(front, id)
                        == Some(result_of_output(#[trigger] front[j]));
                assert(outputs[j] == front[j]);
                assert forall|k: int| j < k < outputs.len() implies request_of_id(
                    (#[trigger] outputs[k]).id,
                ) != Some(id) by {
                    if k < n {
                        assert(outputs[k] == front[k]);
                    }
                }
                assert(answers_last(outputs, j, id));
            } else {
                assert forall|j: int| 0 <= j < outputs.len() implies request_of_id(
                    (#[trigger] outputs[j]).id,
                ) != Some(id) by {
                    if j < n {
                        assert(outputs[j] == front[j]);
                    }
                }
            }
        }
    }
}

/// Whether response `j` of a list answers a request, and no later one does.
pub open spec fn answers_last(outputs: Seq<OutputView>, j: int, id: RequestId) -> bool {
    &&& request_of_id(outputs[j].id) == Some(id)
    &&& forall|k: int| j < k < outputs.len() ==> request_of_id((#[trigger] outputs[k]).id) != Some(id)
}

/// Nothing is missing where the requests are all different and each one is answered.
proof fn lemma_nothing_missing(ids: Seq<RequestId>, outputs: Seq<OutputView>)
    ensures
        first_missing(ids, outputs) is None <==> ids.no_duplicates() && forall|i: int|
            0 <= i < ids.len() ==> answer_to(outputs, #[trigger] ids[i]) is Some,
    decreases ids.len(),
{
    if ids.len() > 0 {
        let front = ids.drop_last();
        let n = ids.len() - 1;
        lemma_nothing_missing(front, outputs);
        assert(forall|i: int| 0 <= i < n ==> front[i] == #[trigger] ids[i]);
        assert(ids[n] == ids.last());
        if first_missing(ids, outputs) is None {
            assert forall|i: int, j: int|
                0 <= i < ids.len() && 0 <= j < ids.len() && i != j implies ids[i] != ids[j] by {
                if i == n {
                    assert(front.contains(front[j]));
                } else if j == n {
                    assert(front.contains(front[i]));
                } else {
                    assert(front[i] != front[j]);
                }
            }
        } else if ids.no_duplicates() && (forall|i: int|
            0 <= i < ids.len() ==> answer_to(outputs, #[trigger] ids[i]) is Some) {
            assert forall|i: int, j: int|
                0 <= i < front.len() && 0 <= j < front.len() && i != j implies front[i]
                != front[j] by {
                assert(ids[i] != ids[j]);
            }
            assert forall|i: int| 0 <= i < front.len() implies answer_to(
                outputs,
                #[trigger] front[i],
            ) is Some by {
                assert(front[i] == ids[i]);
            }
            assert(!front.contains(ids.last())) by {
                if front.contains(ids.last()) {
                    let j = choose|j: int| 0 <= j < front.len() && front[j] == ids.last();
                    assert(ids[j] == ids[n]);
                }
            }
        }
    }
}

/// A batch succeeds as a whole exactly where the node sent as many responses as there were
/// requests, every response names its request by number, no two requests share an id, and every
/// request is answered.
pub proof fn batch_succeeds_where_every_request_is_answered(
    ids: Seq<RequestId>,
    outputs: Seq<OutputView>,
)
    ensures
        batch_of(ids, outputs) is Ok <==> {
            &&& ids.len() == outputs.len()
            &&& all_numbered(outputs)
            &&& ids.no_duplicates()
            &&& forall|i: int|
                0 <= i < ids.len() ==> exists|j: int|
                    0 <= j < outputs.len() && request_of_id((#[trigger] outputs[j]).id) == Some(
                        #[trigger] ids[i],
                    )
        },
{
    lemma_nothing_missing(ids, outputs);
    assert forall|i: int| 0 <= i < ids.len() implies (answer_to(outputs, #[trigger] ids[i]) is Some
        <==> exists|j: int|
        0 <= j < outputs.len() && request_of_id((#[trigger] outputs[j]).id) == Some(ids[i])) by {
        lemma_answer(outputs, ids[i]);
    }
}

/// The results of a batch come in the order of its requests, whatever the order of the
/// responses: the result at a place is that of a response with the id of the request there.
pub proof fn batch_keeps_the_order_of_its_requests(ids: Seq<RequestId>, outputs: Seq<OutputView>)
    requires
        batch_of(ids, outputs) is Ok,
    ensures
        batch_of(ids, outputs)->Ok_0.len() == ids.len(),
        forall|i: int|
            0 <= i < ids.len() ==> exists|j: int|
                0 <= j < outputs.len() && answers_last(outputs, j, ids[i]) && #[trigger] batch_of(
                    ids,
                    outputs,
                )->Ok_0[i] == result_of_output(#[trigger] outputs[j]),
{
    lemma_nothing_missing(ids, outputs);
    assert forall|i: int| 0 <= i < ids.len() implies exists|j: int|
        0 <= j < outputs.len() && answers_last(outputs, j, ids[i]) && #[trigger] batch_of(
            ids,
            outputs,
        )->Ok_0[i] == result_of_output(#[trigger] outputs[j]) by {
        lemma_answer(outputs, ids[i]);
        assert(answer_to(outputs, ids[i]) is Some);
    }
}

/// Whether no two responses of a list answer the same request.
pub open spec fn one_answer_each(outputs: Seq<OutputView>) -> bool {
    forall|i: int, j: int|
        0 <= i < outputs.len() && 0 <= j < outputs.len() && i != j && request_of_id(
            (#[trigger] outputs[i]).id,
        ) is Some ==> request_of_id(outputs[i].id) != request_of_id((#[trigger] outputs[j]).id)
}

/// Where a batch succeeds, each request has exactly one response, and each response a request.
pub proof fn a_successful_batch_is_answered_one_to_one(
    ids: Seq<RequestId>,
    outputs: Seq<OutputView>,
)
    requires
        batch_of(ids, outputs) is Ok,
    ensures
        one_answer_each(outputs),
        forall|j: int|
            0 <= j < outputs.len() ==> ids.contains(
                request_of_id((#[trigger] outputs[j]).id)->Some_0,
            ),
{
    lemma_nothing_missing(ids, outputs);
    let named = outputs.map_values(|o: OutputView| request_of_id(o.id)->Some_0);
    assert forall|id: RequestId| ids.to_set().contains(id) implies named.to_set().contains(id) by {
        assert(ids.contains(id));
        let i = choose|i: int| 0 <= i < ids.len() && ids[i] == id;
        lemma_answer(outputs, ids[i]);
        let j = choose|j: int|
            0 <= j < outputs.len() && request_of_id((#[trigger] outputs[j]).id) == Some(id);
        assert(named[j] == id);
        assert(named.contains(id));
    }
    ids.unique_seq_to_set();
    named.lemma_cardinality_of_set();
    vstd::seq_lib::seq_to_set_is_finite(named);
    vstd::seq_lib::seq_to_set_is_finite(ids);
    vstd::set_lib::lemma_len_subset(ids.to_set(), named.to_set());
    named.lemma_no_dup_set_cardinality();
    vstd::set_lib::lemma_subset_equality(ids.to_set(), named.to_set());
    assert forall|j: int| 0 <= j < outputs.len() implies ids.contains(
        request_of_id((#[trigger] outputs[j]).id)->Some_0,
    ) by {
        assert(named.contains(named[j]));
        assert(named.to_set().contains(named[j]));
        assert(ids.to_set().contains(named[j]));
    }
    assert forall|i: int, j: int|
        0 <= i < outputs.len() && 0 <= j < outputs.len() && i != j && request_of_id(
            (#[trigger] outputs[i]).id,
        ) is Some implies request_of_id(outputs[i].id) != request_of_id(
        (#[trigger] outputs[j]).id,
    ) by {
        assert(named[i] != named[j]);
    }
}

/// The order in which the node gives its responses does not matter: the same responses in
/// another order come to the same results, or to the same error.
pub proof fn response_order_does_not_matter(
    ids: Seq<RequestId>,
    outputs: Seq<OutputView>,
    shuffled: Seq<OutputView>,
)
    requires
        outputs.to_multiset() == shuffled.to_multiset(),
    ensures
        batch_of(ids, shuffled) == batch_of(ids, outputs),
{
    outputs.to_multiset_ensures();
    shuffled.to_multiset_ensures();
    assert forall|o: OutputView| outputs.contains(o) <==> shuffled.contains(o) by {
        assert(outputs.contains(o) <==> outputs.to_multiset().count(o) > 0);
        assert(shuffled.contains(o) <==> shuffled.to_multiset().count(o) > 0);
    }
    assert(all_numbered(outputs) == all_numbered(shuffled)) by {
        if all_numbered(outputs) {
            assert forall|i: int| 0 <= i < shuffled.len() implies request_of_id(
                (#[trigger] shuffled[i]).id,
            ) is Some by {
                assert(outputs.contains(shuffled[i]));
            }
        }
        if all_numbered(shuffled) {
            assert forall|i: int| 0 <= i < outputs.len() implies request_of_id(
                (#[trigger] outputs[i]).id,
            ) is Some by {
                assert(shuffled.contains(outputs[i]));
            }
        }
    }
    assert forall|id: RequestId| #[trigger]
        answer_to(outputs, id) is Some <==> answer_to(shuffled, id) is Some by {
        lemma_answered_too(outputs, shuffled, id);
        lemma_answered_too(shuffled, outputs, id);
    }
    lemma_same_missing(ids, outputs, shuffled);
    if batch_of(ids, outputs) is Ok {
        a_successful_batch_is_answered_one_to_one(ids, outputs);
        a_successful_batch_is_answered_one_to_one(ids, shuffled);
        lemma_nothing_missing(ids, outputs);
        assert forall|i: int| 0 <= i < ids.len() implies answer_to(outputs, #[trigger] ids[i])
            == answer_to(shuffled, ids[i]) by {
            lemma_answer(outputs, ids[i]);
            lemma_answer(shuffled, ids[i]);
            let j = choose|j: int|
                0 <= j < outputs.len() && answers_last(outputs, j, ids[i]) && answer_to(
                    outputs,
                    ids[i],
                ) == Some(result_of_output(#[trigger] outputs[j]));
            let m = choose|m: int|
                0 <= m < shuffled.len() && answers_last(shuffled, m, ids[i]) && answer_to(
                    shuffled,
                    ids[i],
                ) == Some(result_of_output(#[trigger] shuffled[m]));
            assert(shuffled.contains(outputs[j]));
            let k = choose|k: int| 0 <= k < shuffled.len() && shuffled[k] == outputs[j];
            assert(m == k);
        }
        assert(batch_of(ids, outputs)->Ok_0 =~= batch_of(ids, shuffled)->Ok_0);
    }
}

/// A request that is answered in one list is answered in any that holds the same responses.
proof fn lemma_answered_too(a: Seq<OutputView>, b: Seq<OutputView>, id: RequestId)
    requires
        forall|o: OutputView| a.contains(o) ==> b.contains(o),
    ensures
        answer_to(a, id) is Some ==> answer_to(b, id) is Some,
{
    lemma_answer(a, id);
    lemma_answer(b, id);
    if answer_to(a, id) is Some {
        let j = choose|j: int|
            0 <= j < a.len() && request_of_id((#[trigger] a[j]).id) == Some(id);
        assert(a.contains(a[j]));
        let k = choose|k: int| 0 <= k < b.len() && b[k] == a[j];
        assert(request_of_id(b[k].id) == Some(id));
    }
}

proof fn lemma_same_missing(ids: Seq<RequestId>, a: Seq<OutputView>, b: Seq<OutputView>)
    requires
        forall|id: RequestId| #[trigger] answer_to(a, id) is Some <==> answer_to(b, id) is Some,
    ensures
        first_missing(ids, a) == first_missing(ids, b),
    decreases ids.len(),
{
    if ids.len() > 0 {
        lemma_same_missing(ids.drop_last(), a, b);
        assert(answer_to(a, ids.last()) is Some <==> answer_to(b, ids.last()) is Some);
    }
}

/// The failure of one call leaves the others alone: whatever the response to one request says,
/// the batch still succeeds and the results of all other requests stay as they are.
pub proof fn one_outcome_does_not_touch_the_others(
    ids: Seq<RequestId>,
    outputs: Seq<OutputView>,
    j: int,
    outcome: Result<Value, jsonrpc_core::Error>,
)
    requires
        0 <= j < outputs.len(),
        batch_of(ids, outputs) is Ok,
    ensures
        ({
            let changed = outputs.update(j, OutputView { outcome, ..outputs[j] });
            &&& batch_of(ids, changed) is Ok
            &&& batch_of(ids, changed)->Ok_0.len() == batch_of(ids, outputs)->Ok_0.len()
            &&& forall|i: int|
                0 <= i < ids.len() && request_of_id(outputs[j].id) != Some(ids[i])
                    ==> #[trigger] batch_of(ids, changed)->Ok_0[i] == batch_of(
                    ids,
                    outputs,
                )->Ok_0[i]
        }),
{
    let changed = outputs.update(j, OutputView { outcome, ..outputs[j] });
    assert(all_numbered(changed)) by {
        assert forall|i: int| 0 <= i < changed.len() implies request_of_id(
            (#[trigger] changed[i]).id,
        ) is Some by {
            assert(changed[i].id == outputs[i].id);
        }
    }
    assert forall|id: RequestId| #[trigger]
        answer_to(changed, id) is Some <==> answer_to(outputs, id) is Some by {
        lemma_changed_answer(outputs, j, outcome, id);
    }
    lemma_nothing_missing(ids, outputs);
    lemma_nothing_missing(ids, changed);
    assert forall|i: int|
        0 <= i < ids.len() && request_of_id(outputs[j].id) != Some(
            ids[i],
        ) implies #[trigger] batch_of(ids, changed)->Ok_0[i] == batch_of(ids, outputs)->Ok_0[i] by {
        lemma_changed_answer(outputs, j, outcome, ids[i]);
    }
}

proof fn lemma_changed_answer(
    outputs: Seq<OutputView>,
    j: int,
    outcome: Result<Value, jsonrpc_core::Error>,
    id: RequestId,
)
    requires
        0 <= j < outputs.len(),
    ensures
        ({
            let changed = outputs.update(j, OutputView { outcome, ..outputs[j] });
            &&& answer_to(changed, id) is Some <==> answer_to(outputs, id) is Some
            &&& request_of_id(outputs[j].id) != Some(id) ==> answer_to(changed, id) == answer_to(
                outputs,
                id,
            )
        }),
    decreases outputs.len(),
{
    let changed = outputs.update(j, OutputView { outcome, ..outputs[j] });
    if j < outputs.len() - 1 {
        assert(changed.drop_last() =~= outputs.drop_last().update(
            j,
            OutputView { outcome, ..outputs.drop_last()[j] },
        ));
        lemma_changed_answer(outputs.drop_last(), j, outcome, id);
    } else {
        assert(changed.drop_last() =~= outputs.drop_last());
    }
}

/// A client is made for every text that is a URL, posts to that URL, and numbers its calls from
/// zero. For any other text the error says why it is none.
pub proof fn a_client_posts_to_its_url(
    url: &str,
    r: Result<Http, Error>,
    call: jsonrpc_core::Call,
    post: Post,
    client: &mut Http,
    first: RequestId,
)
    requires
        call_ensures(Http::new, (url,), r),
        r is Ok ==> call_ensures(Http::send, (&r->Ok_0, call), post),
        r is Ok ==> *old(client) == r->Ok_0,
        call_ensures(Http::next_id, (client,), first),
    ensures
        match url_of_text(url@) {
            Ok(parts) => r is Ok && post.url@ == parts.href && first == 0,
            Err(text) => r is Err && says(r->Err_0, "failed to parse url: "@ + text),
        },
{
}

/// A client for a URL that is known to be one posts to it, and numbers its calls from zero.
pub proof fn a_client_for_a_known_url_posts_to_it(
    url: String,
    http: Http,
    call: jsonrpc_core::Call,
    post: Post,
    client: &mut Http,
    first: RequestId,
)
    requires
        call_ensures(Http::with_url, (url,), http),
        call_ensures(Http::send, (&http, call), post),
        *old(client) == http,
        call_ensures(Http::next_id, (client,), first),
    ensures
        post.url@ == url@,
        post.body@ == request_json(RequestView::Single(call)),
        first == 0,
{
}

/// Each call that is prepared holds its method and its parameters, under the next id. The ids go
/// up one by one, and the client posts to where it did.
pub proof fn prepared_calls_are_numbered_one_by_one(
    client: &mut Http,
    method: &str,
    params: Vec<Value>,
    r: (RequestId, jsonrpc_core::Call),
    later: &mut Http,
    next: RequestId,
    call: jsonrpc_core::Call,
    before: Post,
    after: Post,
)
    requires
        call_ensures(Http::prepare, (client, method, params), r),
        *old(later) == *final(client),
        call_ensures(Http::next_id, (later,), next),
        call_ensures(Http::send, (old(client), call), before),
        call_ensures(Http::send, (final(later), call), after),
    ensures
        r.1 == call_of(
            MethodCallView {
                jsonrpc: Some(Version::V2),
                method: method@,
                params: ParamsView::Array(params@),
                id: IdView::Num(r.0 as u64),
            },
        ),
        r.0 < usize::MAX ==> next == r.0 + 1,
        r.0 == usize::MAX ==> next == 0,
        after.url@ == before.url@,
        before.body@ == request_json(RequestView::Single(call)),
        after.body@ == before.body@,
{
    crate::ids::lemma_second_id(r.0);
}

/// A batch is one post of all its calls in their order, and takes one id.
pub proof fn a_batch_is_posted_whole(
    client: &mut Http,
    requests: Vec<(RequestId, jsonrpc_core::Call)>,
    r: (Vec<RequestId>, Post),
    plain: (Vec<RequestId>, Post),
    single: jsonrpc_core::Call,
    post: Post,
    probe: &mut Http,
    before: RequestId,
    later: &mut Http,
    after: RequestId,
)
    requires
        call_ensures(Http::send_batch, (client, requests), r),
        call_ensures(Http::batch_post, (old(client), requests), plain),
        call_ensures(Http::send, (old(client), single), post),
        *old(probe) == *old(client),
        call_ensures(Http::next_id, (probe,), before),
        *old(later) == *final(client),
        call_ensures(Http::next_id, (later,), after),
    ensures
        r.0@.len() == requests@.len(),
        forall|i: int| 0 <= i < requests@.len() ==> #[trigger] r.0@[i] == requests@[i].0,
        r.1.url@ == post.url@,
        exists|calls: Seq<jsonrpc_core::Call>|
            {
                &&& calls.len() == requests@.len()
                &&& forall|i: int|
                    0 <= i < requests@.len() ==> #[trigger] calls[i] == requests@[i].1
                &&& r.1.body@ == #[trigger] request_json(RequestView::Batch(calls))
            },
        plain.0@ == r.0@ && plain.1.url@ == r.1.url@ && plain.1.body@ == r.1.body@,
        before < usize::MAX ==> after == before + 1,
        before == usize::MAX ==> after == 0,
{
    crate::ids::lemma_second_id(before);
    let calls = requests@.map_values(|x: (RequestId, jsonrpc_core::Call)| x.1);
    assert(r.1.body@ == request_json(RequestView::Batch(calls)));
}

/// A client that could not be set up is told why.
pub proof fn a_failed_client_says_why(text: &str, e: Error)
    requires
        call_ensures(client_failure, (text,), e),
    ensures
        says(e, "failed to build client: "@ + text@),
{
}

/// An answer is read on exactly where its status is one of success. Any other status is the
/// error, and so is a request that could not be sent.
pub proof fn only_success_is_read_on(posted: Result<u16, String>, r: Result<(), Error>)
    requires
        call_ensures(check_status, (posted,), r),
    ensures
        match posted {
            Ok(status) => {
                &&& r is Ok <==> 200 <= status <= 299
                &&& r is Err ==> r->Err_0 == Error::Transport(TransportError::Code(status))
            },
            Err(text) => r is Err && says(r->Err_0, "failed to send request: "@ + text@),
        },
{
}

/// A body that was read is kept as it came.
pub proof fn a_body_is_kept_as_it_came(body: Result<Vec<u8>, String>, r: Result<Vec<u8>, Error>)
    requires
        call_ensures(check_body, (body,), r),
    ensures
        match body {
            Ok(bytes) => r is Ok && r->Ok_0@ == bytes@,
            Err(text) => r is Err && says(r->Err_0, "failed to read response: "@ + text@),
        },
{
}

/// Whether a result is what a single call comes to over HTTP: the value that came, whatever it
/// is, or a failure that quotes the error object that came.
pub open spec fn comes_to(
    r: Result<Value, Error>,
    outcome: Result<Value, jsonrpc_core::Error>,
) -> bool {
    match outcome {
        Ok(value) => r == Ok::<Value, Error>(value),
        Err(error) => r is Err && says(
            r->Err_0,
            "failed to convert output to result: "@ + "RPC error: "@ + rpc_error_text(error),
        ),
    }
}

/// A single call comes to the value of its response, whatever it is.
pub proof fn a_single_call_comes_to_its_outcome(output: Output, r: Result<Value, Error>)
    requires
        call_ensures(settle, (output,), r),
    ensures
        match output {
            Output::Success(success) => comes_to(r, Ok(success.result)),
            Output::Failure(failure) => comes_to(r, Err(failure.error)),
        },
{
    if let Output::Failure(failure) = output {
        assert("failed to convert output to result: "@ + ("RPC error: "@ + rpc_error_text(
            failure.error,
        )) =~= "failed to convert output to result: "@ + "RPC error: "@ + rpc_error_text(
            failure.error,
        ));
    }
}

/// Whether an error says that a body does not parse, and quotes it.
pub open spec fn quotes(e: Error, text: Seq<char>, body: Seq<u8>) -> bool {
    says(e, "failed to deserialize response: "@ + text + ": "@ + lossy_text(body))
}

/// A body that reads as a response comes to what the response says. Any other is quoted.
pub proof fn a_body_comes_to_its_outcome(body: &[u8], r: Result<Value, Error>)
    requires
        call_ensures(single_result, (body,), r),
    ensures
        match output_of_bytes(body@) {
            Ok(output) => comes_to(r, output_parts(output).outcome),
            Err(text) => r is Err && quotes(r->Err_0, text, body@),
        },
{
    match output_of_bytes(body@) {
        Ok(output) => {
            if let Err(error) = output_parts(output).outcome {
                assert("failed to convert output to result: "@ + ("RPC error: "@ + rpc_error_text(
                    error,
                )) =~= "failed to convert output to result: "@ + "RPC error: "@ + rpc_error_text(
                    error,
                ));
            }
        },
        Err(text) => {
            assert("failed to deserialize response: "@ + text + (": "@ + lossy_text(body@))
                =~= "failed to deserialize response: "@ + text + ": "@ + lossy_text(body@));
        },
    }
}

/// Whether an error is why a batch that a single response answers has failed: the error object
/// that came, or that a result came in place of the results.
pub open spec fn refuses(e: Error, output: OutputView) -> bool {
    match output.outcome {
        Ok(result) => objects(
            e,
            "Invalid response for batched request: "@ + success_text(
                output.jsonrpc,
                result,
                output.id,
            ),
        ),
        Err(error) => e == Error::Rpc(error),
    }
}

/// A batch that a single object answers fails with the error object that came, as it came.
pub proof fn a_refused_batch_says_why(answer: Result<Output, String>, e: Error)
    requires
        call_ensures(refusal, (answer,), e),
    ensures
        match answer {
            Ok(output) => refuses(e, output@),
            Err(text) => says(e, "failed to deserialize error object: "@ + text@),
        },
{
}

/// A value that is a list of responses gives exactly those, whatever they say of their calls. An
/// object gives none.
pub proof fn a_list_of_responses_is_read_whole(value: Value, r: Result<Vec<Output>, Error>)
    requires
        call_ensures(handle_possible_error_object_for_batched_request, (value,), r),
    ensures
        json_kind(value) is Object ==> r is Err && match output_of_value(value) {
            Ok(output) => refuses(r->Err_0, output_parts(output)),
            Err(text) => says(r->Err_0, "failed to deserialize error object: "@ + text),
        },
        !(json_kind(value) is Object) ==> match outputs_of_value(value) {
            Ok(raws) => {
                &&& r is Ok
                &&& r->Ok_0@.len() == raws.len()
                &&& forall|i: int|
                    0 <= i < raws.len() ==> (#[trigger] r->Ok_0@[i])@ == output_parts(raws[i])
            },
            Err(text) => r is Err && says(
                r->Err_0,
                "failed to deserialize batch response: "@ + text,
            ),
        },
{
    if !(json_kind(value) is Object) {
        if let Ok(raws) = outputs_of_value(value) {
            if let Ok(outputs) = r {
                assert(outputs_view(outputs@).len() == outputs@.len());
                assert forall|i: int| 0 <= i < raws.len() implies (#[trigger] r->Ok_0@[i])@
                    == output_parts(raws[i]) by {
                    assert(outputs_view(outputs@)[i] == outputs@[i]@);
                }
            }
        }
    }
}

/// A response answers the request whose number it carries, and one without a number answers none.
pub proof fn a_response_answers_the_request_it_numbers(output: &Output, r: Result<RequestId, Error>)
    requires
        call_ensures(id_of_output, (output,), r),
    ensures
        output@.id is Num <==> r is Ok,
        r is Ok ==> carries(output@.id, r->Ok_0),
        r is Err ==> objects(r->Err_0, "response id is not u64"@),
{
}

/// Whether a request of a batch has a response of its own: some response carries its number, and
/// no request before it has the same.
pub open spec fn is_served(ids: Seq<RequestId>, outputs: Seq<OutputView>, k: int) -> bool {
    &&& exists|j: int| 0 <= j < outputs.len() && carries((#[trigger] outputs[j]).id, ids[k])
    &&& forall|m: int| 0 <= m < k ==> #[trigger] ids[m] != ids[k]
}

/// Whether a batch comes to what these responses say of it. It succeeds exactly where there are
/// as many responses as requests, each carries a number, and each request is served; the result
/// at a place is then what the response to the request there says. Otherwise the error says what
/// is wrong, and names the first request that is not served.
pub open spec fn batch_comes_to(
    ids: Seq<RequestId>,
    outputs: Seq<OutputView>,
    r: Result<Vec<Result<Value, Error>>, Error>,
) -> bool {
    let numbered = forall|j: int| 0 <= j < outputs.len() ==> (#[trigger] outputs[j]).id is Num;
    let served = forall|k: int| 0 <= k < ids.len() ==> #[trigger] is_served(ids, outputs, k);
    &&& r is Ok <==> ids.len() == outputs.len() && numbered && served
    &&& r is Ok ==> {
        &&& r->Ok_0@.len() == ids.len()
        &&& forall|i: int, j: int|
            #![trigger r->Ok_0@[i], outputs[j]]
            0 <= i < ids.len() && 0 <= j < outputs.len() && carries(outputs[j].id, ids[i])
                ==> tells(r->Ok_0@[i], outputs[j])
    }
    &&& ids.len() != outputs.len() ==> objects(r->Err_0, "unexpected number of responses"@)
    &&& ids.len() == outputs.len() && !numbered ==> objects(
        r->Err_0,
        "response id is not u64"@,
    )
    &&& ids.len() == outputs.len() && numbered && !served ==> exists|k: int, digits: Seq<char>|
        {
            &&& 0 <= k < ids.len()
            &&& !is_served(ids, outputs, k)
            &&& forall|m: int| 0 <= m < k ==> is_served(ids, outputs, m)
            &&& #[trigger] spells(digits, ids[k] as nat)
            &&& objects(r->Err_0, "batch response is missing id "@ + digits)
        }
}

proof fn lemma_served(ids: Seq<RequestId>, outputs: Seq<OutputView>, k: int)
    requires
        0 <= k < ids.len(),
    ensures
        is_served(ids, outputs, k) <==> answer_to(outputs, ids[k]) is Some && !ids.take(
            k,
        ).contains(ids[k]),
{
    lemma_answer(outputs, ids[k]);
    if answer_to(outputs, ids[k]) is Some {
        let j = choose|j: int|
            0 <= j < outputs.len() && request_of_id((#[trigger] outputs[j]).id) == Some(ids[k]);
        assert(carries(outputs[j].id, ids[k]));
    }
    if ids.take(k).contains(ids[k]) {
        let m = choose|m: int| 0 <= m < k && ids.take(k)[m] == ids[k];
        assert(ids[m] == ids[k]);
    } else {
        assert forall|m: int| 0 <= m < k implies #[trigger] ids[m] != ids[k] by {
            assert(ids.take(k)[m] == ids[m]);
            assert(ids.take(k).contains(ids.take(k)[m]));
        }
    }
}

proof fn lemma_first_unserved(ids: Seq<RequestId>, outputs: Seq<OutputView>, n: int)
    requires
        0 <= n <= ids.len(),
    ensures
        match first_missing(ids.take(n), outputs) {
            Some(id) => exists|k: int|
                {
                    &&& 0 <= k < n
                    &&& ids[k] == id
                    &&& !(#[trigger] is_served(ids, outputs, k))
                    &&& forall|m: int| 0 <= m < k ==> is_served(ids, outputs, m)
                },
            None => forall|k: int| 0 <= k < n ==> #[trigger] is_served(ids, outputs, k),
        },
    decreases n,
{
    if n > 0 {
        lemma_first_unserved(ids, outputs, n - 1);
        lemma_served(ids, outputs, n - 1);
        assert(ids.take(n).drop_last() =~= ids.take(n - 1));
        assert(ids.take(n).last() == ids[n - 1]);
        if first_missing(ids.take(n - 1), outputs) is None && first_missing(
            ids.take(n),
            outputs,
        ) is Some {
            assert(!is_served(ids, outputs, n - 1));
        }
    }
}

proof fn lemma_batch_comes_to(
    ids: Seq<RequestId>,
    outputs: Seq<OutputView>,
    r: Result<Vec<Result<Value, Error>>, Error>,
)
    requires
        crate::error::batch_view(r) == batch_of(ids, outputs),
    ensures
        batch_comes_to(ids, outputs, r),
{
    assert(ids.take(ids.len() as int) =~= ids);
    lemma_first_unserved(ids, outputs, ids.len() as int);
    assert(all_numbered(outputs) <==> forall|j: int|
        0 <= j < outputs.len() ==> (#[trigger] outputs[j]).id is Num) by {
        if all_numbered(outputs) {
            assert forall|j: int| 0 <= j < outputs.len() implies (
            #[trigger] outputs[j]).id is Num by {
                assert(request_of_id(outputs[j].id) is Some);
            }
        }
    }
    if batch_of(ids, outputs) is Ok {
        a_successful_batch_is_answered_one_to_one(ids, outputs);
        assert(results_view(r->Ok_0@).len() == r->Ok_0@.len());
        assert forall|i: int, j: int|
            #![trigger r->Ok_0@[i], outputs[j]]
            0 <= i < ids.len() && 0 <= j < outputs.len() && carries(
                outputs[j].id,
                ids[i],
            ) implies tells(r->Ok_0@[i], outputs[j]) by {
            lemma_answer(outputs, ids[i]);
            assert(request_of_id(outputs[j].id) == Some(ids[i]));
            let m = choose|m: int|
                0 <= m < outputs.len() && answers_last(outputs, m, ids[i]) && answer_to(
                    outputs,
                    ids[i],
                ) == Some(result_of_output(#[trigger] outputs[m]));
            assert(m == j);
            assert(results_view(r->Ok_0@)[i] == crate::error::result_view(r->Ok_0@[i]));
        }
    } else if ids.len() == outputs.len() && all_numbered(outputs) {
        let id = first_missing(ids, outputs)->Some_0;
        let k = choose|k: int|
            {
                &&& 0 <= k < ids.len()
                &&& ids[k] == id
                &&& !(#[trigger] is_served(ids, outputs, k))
                &&& forall|m: int| 0 <= m < k ==> is_served(ids, outputs, m)
            };
        let digits = decimal_digits(id as nat);
        digits_spell_their_number(id as nat);
        assert(spells(digits, ids[k] as nat));
    }
}

/// Responses are matched with requests by the numbers that they carry: each request gets what its
/// own response says, at its own place.
pub proof fn each_request_gets_its_own_response(
    ids: &[RequestId],
    outputs: Vec<Output>,
    r: Result<Vec<Result<Value, Error>>, Error>,
)
    requires
        call_ensures(handle_batch_response, (ids, outputs), r),
    ensures
        batch_comes_to(ids@, outputs_view(outputs@), r),
        outputs_view(outputs@).len() == outputs@.len(),
        forall|j: int| 0 <= j < outputs@.len() ==> outputs_view(outputs@)[j] == (
        #[trigger] outputs@[j])@,
{
    lemma_batch_comes_to(ids@, outputs_view(outputs@), r);
}

/// The contents of the responses that `jsonrpc_core` holds.
pub open spec fn parts_of(raws: Seq<jsonrpc_core::Output>) -> Seq<OutputView> {
    Seq::new(raws.len(), |j: int| output_parts(raws[j]))
}

/// A body that is a list of responses brings each request what its own response says, at its own
/// place: a call that the node refuses has its own error there, and every other its result.
pub proof fn each_request_of_a_batch_gets_its_own_response(
    ids: &[RequestId],
    body: &[u8],
    r: Result<Vec<Result<Value, Error>>, Error>,
)
    requires
        call_ensures(batch_results, (ids, body), r),
    ensures
        match value_of_bytes(body@) {
            Ok(value) => if json_kind(value) is Object {
                r is Err && match output_of_value(value) {
                    Ok(output) => refuses(r->Err_0, output_parts(output)),
                    Err(text) => says(r->Err_0, "failed to deserialize error object: "@ + text),
                }
            } else {
                match outputs_of_value(value) {
                    Ok(raws) => batch_comes_to(ids@, parts_of(raws), r),
                    Err(text) => r is Err && says(
                        r->Err_0,
                        "failed to deserialize batch response: "@ + text,
                    ),
                }
            },
            Err(text) => r is Err && quotes(r->Err_0, text, body@),
        },
{
    match value_of_bytes(body@) {
        Ok(value) => {
            if !(json_kind(value) is Object) {
                if let Ok(raws) = outputs_of_value(value) {
                    let outputs = raws.map_values(|o: jsonrpc_core::Output| output_parts(o));
                    assert(outputs =~= parts_of(raws));
                    lemma_batch_comes_to(ids@, outputs, r);
                }
            }
        },
        Err(text) => {
            assert("failed to deserialize response: "@ + text + (": "@ + lossy_text(body@))
                =~= "failed to deserialize response: "@ + text + ": "@ + lossy_text(body@));
        },
    }
}

/// What the node says of one call does not touch the others: of two bodies that differ only in
/// what they say of one call, both succeed or both fail, and all other calls come to the same.
pub proof fn a_refused_call_leaves_the_others_alone(
    ids: &[RequestId],
    body: &[u8],
    other_body: &[u8],
    r: Result<Vec<Result<Value, Error>>, Error>,
    s: Result<Vec<Result<Value, Error>>, Error>,
    raws: Seq<jsonrpc_core::Output>,
    other_raws: Seq<jsonrpc_core::Output>,
    j: int,
)
    requires
        call_ensures(batch_results, (ids, body), r),
        call_ensures(batch_results, (ids, other_body), s),
        value_of_bytes(body@) matches Ok(value) && !(json_kind(value) is Object)
            && outputs_of_value(value) == Ok::<_, Seq<char>>(raws),
        value_of_bytes(other_body@) matches Ok(value) && !(json_kind(value) is Object)
            && outputs_of_value(value) == Ok::<_, Seq<char>>(other_raws),
        raws.len() == other_raws.len(),
        0 <= j < raws.len(),
        forall|k: int|
            0 <= k < raws.len() ==> output_parts(#[trigger] raws[k]).id == output_parts(
                other_raws[k],
            ).id,
        forall|k: int|
            0 <= k < raws.len() && k != j ==> output_parts(#[trigger] raws[k]) == output_parts(
                other_raws[k],
            ),
    ensures
        r is Ok <==> s is Ok,
        r is Ok ==> r->Ok_0@.len() == s->Ok_0@.len() == ids@.len(),
        r is Ok ==> forall|i: int|
            0 <= i < ids@.len() && !carries(output_parts(raws[j]).id, ids@[i])
                ==> #[trigger] r->Ok_0@[i] == s->Ok_0@[i],
{
    each_request_of_a_batch_gets_its_own_response(ids, body, r);
    each_request_of_a_batch_gets_its_own_response(ids, other_body, s);
    let a = parts_of(raws);
    let b = parts_of(other_raws);
    assert forall|k: int| 0 <= k < a.len() implies (#[trigger] a[k]).id == b[k].id by {
        assert(output_parts(raws[k]).id == output_parts(other_raws[k]).id);
    }
    assert forall|k: int| 0 <= k < b.len() implies (#[trigger] b[k]).id == a[k].id by {}
    assert forall|i: int| 0 <= i < ids@.len() implies (#[trigger] is_served(ids@, a, i)
        <==> is_served(ids@, b, i)) by {
        if is_served(ids@, a, i) {
            let m = choose|m: int| 0 <= m < a.len() && carries((#[trigger] a[m]).id, ids@[i]);
            assert(carries(b[m].id, ids@[i]));
        }
        if is_served(ids@, b, i) {
            let m = choose|m: int| 0 <= m < b.len() && carries((#[trigger] b[m]).id, ids@[i]);
            assert(carries(a[m].id, ids@[i]));
        }
    }
    if r is Ok {
        assert forall|i: int| 0 <= i < ids@.len() implies #[trigger] is_served(ids@, b, i) by {
            assert(is_served(ids@, a, i));
        }
        assert forall|k: int| 0 <= k < b.len() implies (#[trigger] b[k]).id is Num by {
            assert(a[k].id is Num);
        }
        assert forall|i: int|
            0 <= i < ids@.len() && !carries(
                output_parts(raws[j]).id,
                ids@[i],
            ) implies #[trigger] r->Ok_0@[i] == s->Ok_0@[i] by {
            assert(is_served(ids@, a, i));
            let m = choose|m: int| 0 <= m < a.len() && carries((#[trigger] a[m]).id, ids@[i]);
            assert(a[j] == output_parts(raws[j]));
            assert(m != j);
            assert(output_parts(raws[m]) == output_parts(other_raws[m]));
            assert(a[m] == b[m]);
            assert(tells(r->Ok_0@[i], a[m]));
            assert(tells(s->Ok_0@[i], b[m]));
        }
    } else if s is Ok {
        assert forall|i: int| 0 <= i < ids@.len() implies #[trigger] is_served(ids@, a, i) by {
            assert(is_served(ids@, b, i));
        }
        assert forall|k: int| 0 <= k < a.len() implies (#[trigger] a[k]).id is Num by {
            assert(b[k].id is Num);
        }
    }
}

} // verus!
