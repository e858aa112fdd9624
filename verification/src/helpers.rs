//! Steps that all transports share: building requests and reading responses.
use serde_json::Value;
use vstd::prelude::*;

use crate::error::{batch_view, result_view, results_view, Error, ErrorView};
use crate::json::{
    call_of, into_call, notification_from_slice, notification_of_bytes, open_output, output_parts,
    request_json, request_to_string, response_from_slice, response_of_bytes, RawResponse,
    RawResponseView,
};
use crate::rpc::{
    outputs_view, Id, IdView, MethodCall, MethodCallView, Notification, Output, OutputView, Params,
    ParamsView, Request, Response, ResponseView, Version,
};

verus! {

/// The call of `method` with positional parameters, under a numeric id.
pub open spec fn method_call_view(
    id: usize,
    method: Seq<char>,
    params: Seq<Value>,
) -> MethodCallView {
    MethodCallView {
        jsonrpc: Some(Version::V2),
        method,
        params: ParamsView::Array(params),
        id: IdView::Num(id as u64),
    }
}

/// The call of `method` with positional parameters, under a numeric id.
pub fn method_call(id: usize, method: &str, params: Vec<Value>) -> (call: MethodCall)
    ensures
        call@ == method_call_view(id, method@, params@),
{
    MethodCall {
        jsonrpc: Some(Version::V2),
        method: method.to_string(),
        params: Params::Array(params),
        id: Id::Num(id as u64),
    }
}

/// Builds the call of `method` with positional parameters, under a numeric id, ready to be sent.
pub fn build_request(id: usize, method: &str, params: Vec<Value>) -> (call: jsonrpc_core::Call)
    ensures
        call == call_of(method_call_view(id, method@, params@)),
{
    into_call(method_call(id, method, params))
}

/// What a response says of its call: the result, or the error object.
pub open spec fn result_of_output(output: OutputView) -> Result<Value, ErrorView> {
    match output.outcome {
        Ok(value) => Ok(value),
        Err(error) => Err(ErrorView::Rpc(error)),
    }
}

/// What a response says of its call: the result, or the error object.
pub fn to_result_from_output(output: Output) -> (r: Result<Value, Error>)
    ensures
        result_view(r) == result_of_output(output@),
{
    match output {
        Output::Success(success) => Ok(success.result),
        Output::Failure(failure) => Err(Error::Rpc(failure.error)),
    }
}

/// Reads a notification. Anything else is an invalid response.
pub fn to_notification_from_slice(notification: &[u8]) -> (r: Result<Notification, Error>)
    ensures
        match (r, notification_of_bytes(notification@)) {
            (Ok(n), Ok(view)) => n@ == view,
            (Err(e), Err(text)) => e@ == ErrorView::InvalidResponse(text),
            _ => false,
        },
{
    match notification_from_slice(notification) {
        Ok(n) => Ok(n),
        Err(text) => Err(Error::InvalidResponse(text)),
    }
}

/// The response with each output taken apart.
pub open spec fn opened(response: RawResponseView) -> ResponseView {
    match response {
        RawResponseView::Single(output) => ResponseView::Single(output_parts(output)),
        RawResponseView::Batch(outputs) => ResponseView::Batch(
            outputs.map_values(|o: jsonrpc_core::Output| output_parts(o)),
        ),
    }
}

/// Takes each output of a list apart.
pub(crate) fn open_outputs(outputs: Vec<jsonrpc_core::Output>) -> (r: Vec<Output>)
    ensures
        outputs_view(r@) == outputs@.map_values(|o: jsonrpc_core::Output| output_parts(o)),
{
    let ghost all = outputs@;
    let mut r: Vec<Output> = Vec::new();
    for output in iter: outputs
        invariant
            iter.seq() == all,
            r@.len() == iter.index(),
            forall|i: int| 0 <= i < r@.len() ==> (#[trigger] r@[i])@ == output_parts(all[i]),
    {
        r.push(open_output(output));
    }
    r
}

/// Takes a response apart.
pub(crate) fn open_response(response: RawResponse) -> (r: Response)
    ensures
        r@ == opened(response@),
{
    match response {
        RawResponse::Single(output) => Response::Single(open_output(output)),
        RawResponse::Batch(outputs) => Response::Batch(open_outputs(outputs)),
    }
}

/// Reads the response to a call or to a batch. Anything else is an invalid response.
pub fn to_response_from_slice(response: &[u8]) -> (r: Result<Response, Error>)
    ensures
        match (r, response_of_bytes(response@)) {
            (Ok(x), Ok(view)) => x@ == opened(view),
            (Err(e), Err(text)) => e@ == ErrorView::InvalidResponse(text),
            _ => false,
        },
{
    match response_from_slice(response) {
        Ok(raw) => Ok(open_response(raw)),
        Err(text) => Err(Error::InvalidResponse(text)),
    }
}

/// What each response of a list says of its call, in the same order.
pub open spec fn results_of_outputs(outputs: Seq<OutputView>) -> Seq<Result<Value, ErrorView>> {
    outputs.map_values(|o: OutputView| result_of_output(o))
}

/// What each response of a list says of its call, in the same order.
pub fn to_results_from_outputs(outputs: Vec<Output>) -> (r: Result<
    Vec<Result<Value, Error>>,
    Error,
>)
    ensures
        batch_view(r) == Ok::<_, ErrorView>(results_of_outputs(outputs_view(outputs@))),
{
    let ghost all = outputs@;
    let mut results: Vec<Result<Value, Error>> = Vec::new();
    for output in iter: outputs
        invariant
            iter.seq() == all,
            results@.len() == iter.index(),
            forall|i: int|
                0 <= i < results@.len() ==> result_view(#[trigger] results@[i])
                    == result_of_output(all[i]@),
    {
        results.push(to_result_from_output(output));
    }
    assert(results_view(results@) =~= results_of_outputs(outputs_view(all)));
    Ok(results)
}

/// The JSON text of a request.
pub fn to_string(request: &Request) -> (s: String)
    ensures
        s@ == request_json(request@),
{
    request_to_string(request)
}

} // verus!
