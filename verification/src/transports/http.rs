//! JSON-RPC over HTTP: every request is a `POST` of its own, and the body of the answer holds
//! the response.
use std::collections::HashMap;

use serde_json::Value;
use vstd::prelude::*;

use crate::address::{from_utf8_lossy, lossy_text, parse_url, url_of_text};
use crate::error::{batch_view, result_view, results_view, Error, ErrorView, TransportError};
use crate::helpers::{
    build_request, method_call_view, open_outputs, result_of_output, to_result_from_output,
    to_string,
};
use crate::ids::{nth_id, RequestIds};
use crate::json::{
    call_of, json_kind, open_output, output_from_slice, output_from_value, output_of_bytes,
    output_of_value, output_parts, outputs_from_value, outputs_of_value, request_json,
    success_debug, success_text, value_from_slice, value_of_bytes,
};
use crate::rpc::{outputs_view, request_of_id, Id, Output, OutputView, Request, RequestView};
use crate::text::{decimal, decimal_digits, join};
use crate::RequestId;

pub mod laws;

verus! {

broadcast use vstd::std_specs::hash::group_hash_axioms;

/// What is posted to the node.
#[derive(Debug, PartialEq, Eq)]
pub struct Post {
    /// The URL of the node.
    pub url: String,
    /// The JSON text of the request.
    pub body: String,
}

/// A client of a node behind an HTTP endpoint.
#[derive(Debug)]
pub struct Http {
    url: String,
    ids: RequestIds,
}

impl Http {
    /// The URL of the node.
    pub closed spec fn url(&self) -> Seq<char> {
        self.url@
    }

    /// The id that is handed out next.
    pub closed spec fn upcoming(&self) -> RequestId {
        self.ids.upcoming()
    }

    /// A client of the node at this URL.
    pub fn new(url: &str) -> (r: Result<Http, Error>)
        ensures
            match (r, url_of_text(url@)) {
                (Ok(http), Ok(parts)) => http.url() == parts.href && http.upcoming() == 0,
                (Err(e), Err(text)) => e@ == ErrorView::message("failed to parse url: "@ + text),
                _ => false,
            },
    {
        match parse_url(url) {
            Ok(parts) => Ok(Http::with_url(parts.href)),
            Err(text) => Err(Error::message(join("failed to parse url: ", text.as_str()))),
        }
    }

    /// A client of the node at this URL, which is known to be one.
    pub fn with_url(url: String) -> (http: Http)
        ensures
            http.url() == url@,
            http.upcoming() == 0,
    {
        Http { url, ids: RequestIds::starting_at(0) }
    }

    /// Takes the next request id.
    pub fn next_id(&mut self) -> (id: RequestId)
        ensures
            id == old(self).upcoming(),
            final(self).upcoming() == nth_id(id, 1),
            final(self).url() == old(self).url(),
    {
        self.ids.next_id()
    }

    /// Builds the call of `method` under the next request id.
    pub fn prepare(&mut self, method: &str, params: Vec<Value>) -> (r: (
        RequestId,
        jsonrpc_core::Call,
    ))
        ensures
            r.0 == old(self).upcoming(),
            r.1 == call_of(method_call_view(r.0, method@, params@)),
            final(self).upcoming() == nth_id(r.0, 1),
            final(self).url() == old(self).url(),
    {
        let id: RequestId = self.next_id();
        (id, build_request(id, method, params))
    }

    /// What to post for one call.
    pub fn send(&self, call: jsonrpc_core::Call) -> (post: Post)
        ensures
            post.url@ == self.url(),
            post.body@ == request_json(RequestView::Single(call)),
    {
        Post { url: self.url.clone(), body: to_string(&Request::Single(call)) }
    }

    /// What to post for a batch, and the requests whose responses it will bring.
    pub fn batch_post(&self, requests: Vec<(RequestId, jsonrpc_core::Call)>) -> (r: (
        Vec<RequestId>,
        Post,
    ))
        ensures
            r.0@ == requests@.map_values(|x: (RequestId, jsonrpc_core::Call)| x.0),
            r.1.url@ == self.url(),
            r.1.body@ == request_json(
                RequestView::Batch(requests@.map_values(|x: (RequestId, jsonrpc_core::Call)| x.1)),
            ),
    {
        let ghost all = requests@;
        let url = self.url.clone();
        let mut ids: Vec<RequestId> = Vec::new();
        let mut calls: Vec<jsonrpc_core::Call> = Vec::new();
        for request in iter: requests
            invariant
                iter.seq() == all,
                ids@.len() == iter.index(),
                calls@.len() == iter.index(),
                forall|i: int| 0 <= i < ids@.len() ==> #[trigger] ids@[i] == all[i].0,
                forall|i: int| 0 <= i < calls@.len() ==> #[trigger] calls@[i] == all[i].1,
        {
            let (id, call) = request;
            ids.push(id);
            calls.push(call);
        }
        proof {
            assert(ids@ =~= all.map_values(|x: (RequestId, jsonrpc_core::Call)| x.0));
            assert(calls@ =~= all.map_values(|x: (RequestId, jsonrpc_core::Call)| x.1));
        }
        (ids, Post { url, body: to_string(&Request::Batch(calls)) })
    }

    /// What to post for a batch, and the requests whose responses it will bring. The batch uses
    /// up a request id of its own.
    pub fn send_batch(&mut self, requests: Vec<(RequestId, jsonrpc_core::Call)>) -> (r: (
        Vec<RequestId>,
        Post,
    ))
        ensures
            r.0@ == requests@.map_values(|x: (RequestId, jsonrpc_core::Call)| x.0),
            r.1.url@ == old(self).url(),
            r.1.body@ == request_json(
                RequestView::Batch(requests@.map_values(|x: (RequestId, jsonrpc_core::Call)| x.1)),
            ),
            final(self).upcoming() == nth_id(old(self).upcoming(), 1),
            final(self).url() == old(self).url(),
    {
        let _id: RequestId = self.next_id();
        self.batch_post(requests)
    }
}

/// The error for a client that could not be set up.
pub fn client_failure(text: &str) -> (e: Error)
    ensures
        e@ == ErrorView::message("failed to build client: "@ + text@),
{
    Error::message(join("failed to build client: ", text))
}

/// Whether an HTTP status code reports success.
pub open spec fn is_success(status: u16) -> bool {
    200 <= status < 300
}

/// What follows from posting: the body is read only where the node reports success.
pub fn check_status(posted: Result<u16, String>) -> (r: Result<(), Error>)
    ensures
        match (posted, r) {
            (Ok(status), Ok(())) => is_success(status),
            (Ok(status), Err(e)) => !is_success(status) && e@ == ErrorView::code(status),
            (Err(text), Err(e)) => e@ == ErrorView::message("failed to send request: "@ + text@),
            (Err(_), Ok(_)) => false,
        },
{
    match posted {
        Ok(status) => if 200 <= status && status < 300 {
            Ok(())
        } else {
            Err(Error::Transport(TransportError::Code(status)))
        },
        Err(text) => Err(Error::message(join("failed to send request: ", text.as_str()))),
    }
}

/// What follows from reading the body.
pub fn check_body(body: Result<Vec<u8>, String>) -> (r: Result<Vec<u8>, Error>)
    ensures
        match (body, r) {
            (Ok(bytes), Ok(read)) => read@ == bytes@,
            (Err(text), Err(e)) => e@ == ErrorView::message("failed to read response: "@ + text@),
            _ => false,
        },
{
    match body {
        Ok(bytes) => Ok(bytes),
        Err(text) => Err(Error::message(join("failed to read response: ", text.as_str()))),
    }
}

/// The error for a body that does not parse.
pub open spec fn undecodable(text: Seq<char>, body: Seq<u8>) -> ErrorView {
    ErrorView::message("failed to deserialize response: "@ + text + (": "@ + lossy_text(body)))
}

fn undecodable_error(text: &str, body: &[u8]) -> (e: Error)
    ensures
        e@ == undecodable(text@, body@),
{
    let head = join("failed to deserialize response: ", text);
    let tail = join(": ", from_utf8_lossy(body).as_str());
    Error::message(join(head.as_str(), tail.as_str()))
}

/// What the response to a single call amounts to.
pub open spec fn settled(output: OutputView) -> Result<Value, ErrorView> {
    match result_of_output(output) {
        Ok(value) => Ok(value),
        Err(error) => Err(
            ErrorView::message("failed to convert output to result: "@ + error.text()),
        ),
    }
}

/// What the response to a single call amounts to: an error object is reported as a failure of
/// the transport that quotes it.
pub fn settle(output: Output) -> (r: Result<Value, Error>)
    ensures
        result_view(r) == settled(output@),
{
    match to_result_from_output(output) {
        Ok(value) => Ok(value),
        Err(error) => Err(
            Error::message(
                join("failed to convert output to result: ", error.to_string().as_str()),
            ),
        ),
    }
}

/// What comes of a single call, from the body that the node answered with.
pub fn single_result(body: &[u8]) -> (r: Result<Value, Error>)
    ensures
        result_view(r) == match output_of_bytes(body@) {
            Ok(output) => settled(output_parts(output)),
            Err(text) => Err(undecodable(text, body@)),
        },
{
    match output_from_slice(body) {
        Ok(output) => settle(open_output(output)),
        Err(text) => Err(undecodable_error(text.as_str(), body)),
    }
}

/// Why a batch that is answered by a single object has failed.
pub open spec fn refusal_of(answer: Result<OutputView, Seq<char>>) -> ErrorView {
    match answer {
        Ok(output) => match output.outcome {
            Ok(result) => ErrorView::InvalidResponse(
                "Invalid response for batched request: "@ + success_text(
                    output.jsonrpc,
                    result,
                    output.id,
                ),
            ),
            Err(error) => ErrorView::Rpc(error),
        },
        Err(text) => ErrorView::message("failed to deserialize error object: "@ + text),
    }
}

/// Why a batch that is answered by a single object has failed: the error object that came, or
/// that something else came.
pub fn refusal(answer: Result<Output, String>) -> (e: Error)
    ensures
        e@ == refusal_of(
            match answer {
                Ok(output) => Ok(output@),
                Err(text) => Err(text@),
            },
        ),
{
    match answer {
        Ok(Output::Failure(failure)) => Error::Rpc(failure.error),
        Ok(Output::Success(success)) => Error::InvalidResponse(
            join("Invalid response for batched request: ", success_debug(success).as_str()),
        ),
        Err(text) => Error::message(
            join("failed to deserialize error object: ", text.as_str()),
        ),
    }
}

/// The responses to a batch that a JSON value holds.
pub open spec fn batch_outputs_of(value: Value) -> Result<Seq<OutputView>, ErrorView> {
    if json_kind(value) is Object {
        Err(
            refusal_of(
                match output_of_value(value) {
                    Ok(output) => Ok(output_parts(output)),
                    Err(text) => Err(text),
                },
            ),
        )
    } else {
        match outputs_of_value(value) {
            Ok(outputs) => Ok(outputs.map_values(|o: jsonrpc_core::Output| output_parts(o))),
            Err(text) => Err(
                ErrorView::message("failed to deserialize batch response: "@ + text),
            ),
        }
    }
}

/// The responses to a batch that a JSON value holds. A single object in place of them is an
/// error of the whole batch.
pub fn handle_possible_error_object_for_batched_request(value: Value) -> (r: Result<
    Vec<Output>,
    Error,
>)
    ensures
        batch_outputs_of(value) == match r {
            Ok(outputs) => Ok::<Seq<OutputView>, ErrorView>(outputs_view(outputs@)),
            Err(e) => Err(e@),
        },
{
    if value.is_object() {
        let answer = match output_from_value(value) {
            Ok(output) => Ok(open_output(output)),
            Err(text) => Err(text),
        };
        return Err(refusal(answer));
    }
    match outputs_from_value(value) {
        Ok(outputs) => Ok(open_outputs(outputs)),
        Err(text) => Err(
            Error::message(join("failed to deserialize batch response: ", text.as_str())),
        ),
    }
}

/// What comes of a batch, from the body that the node answered with.
pub fn batch_results(ids: &[RequestId], body: &[u8]) -> (r: Result<
    Vec<Result<Value, Error>>,
    Error,
>)
    ensures
        batch_view(r) == match value_of_bytes(body@) {
            Ok(value) => match batch_outputs_of(value) {
                Ok(outputs) => batch_of(ids@, outputs),
                Err(e) => Err(e),
            },
            Err(text) => Err(undecodable(text, body@)),
        },
{
    match value_from_slice(body) {
        Ok(value) => match handle_possible_error_object_for_batched_request(value) {
            Ok(outputs) => handle_batch_response(ids, outputs),
            Err(e) => Err(e),
        },
        Err(text) => Err(undecodable_error(text.as_str(), body)),
    }
}

/// The request that a response answers. Its id has to be a number.
pub fn id_of_output(output: &Output) -> (r: Result<RequestId, Error>)
    ensures
        match r {
            Ok(id) => request_of_id(output@.id) == Some(id),
            Err(e) => request_of_id(output@.id) is None && e@ == ErrorView::InvalidResponse(
                "response id is not u64"@,
            ),
        },
{
    match output.id() {
        Id::Num(number) => Ok(*number as RequestId),
        _ => Err(Error::InvalidResponse("response id is not u64".to_string())),
    }
}

/// What a list of responses says of one request: the last response with its id counts.
pub open spec fn answer_to(outputs: Seq<OutputView>, id: RequestId) -> Option<
    Result<Value, ErrorView>,
>
    decreases outputs.len(),
{
    if outputs.len() == 0 {
        None
    } else if request_of_id(outputs.last().id) == Some(id) {
        Some(result_of_output(outputs.last()))
    } else {
        answer_to(outputs.drop_last(), id)
    }
}

/// The first request of a list that is left without a response of its own, if there is one.
pub open spec fn first_missing(ids: Seq<RequestId>, outputs: Seq<OutputView>) -> Option<RequestId>
    decreases ids.len(),
{
    if ids.len() == 0 {
        None
    } else if first_missing(ids.drop_last(), outputs) is Some {
        first_missing(ids.drop_last(), outputs)
    } else if answer_to(outputs, ids.last()) is None || ids.drop_last().contains(ids.last()) {
        Some(ids.last())
    } else {
        None
    }
}

/// Whether each response names a request by its number.
pub open spec fn all_numbered(outputs: Seq<OutputView>) -> bool {
    forall|i: int| 0 <= i < outputs.len() ==> request_of_id((#[trigger] outputs[i]).id) is Some
}

/// What comes of a batch: for each request in turn what its response says. A batch fails as a
/// whole where the responses cannot be matched to the requests one to one.
pub open spec fn batch_of(ids: Seq<RequestId>, outputs: Seq<OutputView>) -> Result<
    Seq<Result<Value, ErrorView>>,
    ErrorView,
> {
    if ids.len() != outputs.len() {
        Err(ErrorView::InvalidResponse("unexpected number of responses"@))
    } else if !all_numbered(outputs) {
        Err(ErrorView::InvalidResponse("response id is not u64"@))
    } else {
        match first_missing(ids, outputs) {
            Some(id) => Err(
                ErrorView::InvalidResponse(
                    "batch response is missing id "@ + decimal_digits(id as nat),
                ),
            ),
            None => Ok(
                Seq::new(ids.len(), |i: int| answer_to(outputs, ids[i])->Some_0),
            ),
        }
    }
}

/// Matches the responses to a batch with its requests, in the order of the requests.
pub fn handle_batch_response(ids: &[RequestId], outputs: Vec<Output>) -> (r: Result<
    Vec<Result<Value, Error>>,
    Error,
>)
    ensures
        batch_view(r) == batch_of(ids@, outputs_view(outputs@)),
{
    if ids.len() != outputs.len() {
        return Err(Error::InvalidResponse("unexpected number of responses".to_string()));
    }
    let ghost all = outputs_view(outputs@);
    let mut answers: HashMap<RequestId, Result<Value, Error>> = HashMap::new();
    for output in iter: outputs
        invariant
            outputs_view(iter.seq()) == all,
            ids@.len() == all.len(),
            all_numbered(all.take(iter.index() as int)),
            forall|id: RequestId| #[trigger]
                answers@.contains_key(id) <==> answer_to(all.take(iter.index() as int), id) is Some,
            forall|id: RequestId|
                answers@.contains_key(id) ==> answer_to(all.take(iter.index() as int), id) == Some(
                    result_view(#[trigger] answers@[id]),
                ),
    {
        let ghost k = iter.index() as int;
        proof {
            assert(output == iter.seq()[k]);
            assert(all[k] == output@);
            assert(all.take(k + 1).drop_last() =~= all.take(k));
            assert(all.take(k + 1).last() == output@);
        }
        match id_of_output(&output) {
            Ok(id) => {
                answers.insert(id, to_result_from_output(output));
            },
            Err(e) => {
                return Err(e);
            },
        }
    }
    assert(all.take(all.len() as int) =~= all);
    let mut results: Vec<Result<Value, Error>> = Vec::new();
    let mut i: usize = 0;
    while i < ids.len()
        invariant
            i <= ids@.len(),
            all == outputs_view(outputs@),
            ids@.len() == all.len(),
            all_numbered(all),
            first_missing(ids@.take(i as int), all) is None,
            results@.len() == i,
            forall|j: int|
                0 <= j < i ==> answer_to(all, ids@[j]) == Some(result_view(#[trigger] results@[j])),
            forall|id: RequestId| #[trigger]
                answers@.contains_key(id) <==> (answer_to(all, id) is Some && !ids@.take(
                    i as int,
                ).contains(id)),
            forall|id: RequestId|
                answers@.contains_key(id) ==> answer_to(all, id) == Some(
                    result_view(#[trigger] answers@[id]),
                ),
        decreases ids@.len() - i,
    {
        let id: RequestId = ids[i];
        proof {
            assert(ids@.take(i + 1).drop_last() =~= ids@.take(i as int));
            assert(ids@.take(i + 1).last() == id);
        }
        match answers.remove(&id) {
            Some(result) => {
                results.push(result);
            },
            None => {
                proof {
                    lemma_missing_stays(ids@, i + 1, all);
                }
                return Err(
                    Error::InvalidResponse(
                        join("batch response is missing id ", decimal(id as u64).as_str()),
                    ),
                );
            },
        }
        i = i + 1;
    }
    proof {
        assert(ids@.take(ids@.len() as int) =~= ids@);
        assert(results_view(results@) =~= Seq::new(
            ids@.len(),
            |j: int| answer_to(all, ids@[j])->Some_0,
        ));
    }
    Ok(results)
}

/// What is missing early in a list is missing in the whole list.
proof fn lemma_missing_stays(ids: Seq<RequestId>, n: int, outputs: Seq<OutputView>)
    requires
        0 <= n <= ids.len(),
        first_missing(ids.take(n), outputs) is Some,
    ensures
        first_missing(ids, outputs) == first_missing(ids.take(n), outputs),
    decreases ids.len() - n,
{
    if n < ids.len() {
        assert(ids.take(n + 1).drop_last() =~= ids.take(n));
        lemma_missing_stays(ids, n + 1, outputs);
    } else {
        assert(ids.take(n) =~= ids);
    }
}

} // verus!
