//! What `serde_json` and `jsonrpc_core` do for the transports: parsing, serialising and
//! looking into JSON values.
use jsonrpc_core::Error as RpcError;
use jsonrpc_core::Output as RawOutput;
use vstd::prelude::*;

use crate::rpc::{
    Failure, Id, IdView, MethodCall, MethodCallView, Notification, NotificationView, Output,
    OutputView, Params, Request, RequestView, Success, Version,
};

verus! {

/// A JSON value.
#[verifier::external_type_specification]
#[verifier::external_body]
pub struct ExValue(serde_json::Value);

/// The members of a JSON object.
#[verifier::external_type_specification]
#[verifier::external_body]
#[verifier::reject_recursive_types(K)]
#[verifier::reject_recursive_types(V)]
pub struct ExMembers<K, V>(serde_json::Map<K, V>);

/// The error object of a failed call.
#[verifier::external_type_specification]
#[verifier::external_body]
pub struct ExRpcError(RpcError);

/// A response as `jsonrpc_core` holds it.
#[verifier::external_type_specification]
#[verifier::external_body]
pub struct ExRawOutput(RawOutput);

/// A call as `jsonrpc_core` holds it.
#[verifier::external_type_specification]
#[verifier::external_body]
pub struct ExCall(jsonrpc_core::Call);

/// What kind of JSON value something is, as far as it matters here.
pub enum JsonKind {
    Object,
    Text(Seq<char>),
    Other,
}

/// What a JSON value holds.
pub uninterp spec fn json_kind(value: serde_json::Value) -> JsonKind;

/// What a JSON object holds: its members by name.
pub uninterp spec fn entries(
    members: serde_json::Map<String, serde_json::Value>,
) -> Map<Seq<char>, serde_json::Value>;

/// `serde_json::Value::is_object` says whether a value is a JSON object.
pub assume_specification[ serde_json::Value::is_object ](value: &serde_json::Value) -> (r: bool)
    ensures
        r == (json_kind(*value) is Object),
;

/// `serde_json::Value::as_str` gives the text of a JSON string, and nothing for any other value.
pub assume_specification[ serde_json::Value::as_str ](value: &serde_json::Value) -> (r: Option<
    &str,
>)
    ensures
        match r {
            Some(text) => json_kind(*value) == JsonKind::Text(text@),
            None => !(json_kind(*value) is Text),
        },
;

/// `serde_json::Value::clone` gives the same value again.
pub assume_specification[ <serde_json::Value as Clone>::clone ](
    value: &serde_json::Value,
) -> (r: serde_json::Value)
    ensures
        r == *value,
;

/// `jsonrpc_core::Error::clone` gives the same error object again.
pub assume_specification[ <RpcError as Clone>::clone ](error: &RpcError) -> (r: RpcError)
    ensures
        r == *error,
;

/// `serde_json::Map::get` finds the member of that name, if there is one.
#[verifier::external_body]
pub(crate) fn member<'a>(
    members: &'a serde_json::Map<String, serde_json::Value>,
    name: &str,
) -> (r: Option<&'a serde_json::Value>)
    ensures
        match r {
            Some(value) => entries(*members).dom().contains(name@) && entries(*members)[name@]
                == *value,
            None => !entries(*members).dom().contains(name@),
        },
{
    members.get(name)
}

/// What `jsonrpc_core` holds of a response.
pub uninterp spec fn output_parts(output: RawOutput) -> OutputView;

/// Takes a `jsonrpc_core::Output` apart.
#[verifier::external_body]
pub(crate) fn open_output(output: RawOutput) -> (r: Output)
    ensures
        r@ == output_parts(output),
{
    let jsonrpc = output.version().map(|v| match v { jsonrpc_core::Version::V2 => Version::V2 });
    let id = match output.id().clone() {
        jsonrpc_core::Id::Null => Id::Null,
        jsonrpc_core::Id::Num(n) => Id::Num(n),
        jsonrpc_core::Id::Str(s) => Id::Str(s),
    };
    match output {
        RawOutput::Success(s) => Output::Success(Success { jsonrpc, result: s.result, id }),
        RawOutput::Failure(f) => Output::Failure(Failure { jsonrpc, error: f.error, id }),
    }
}

/// A response to one call or to a batch, with each output as `jsonrpc_core` holds it.
pub enum RawResponse {
    Single(RawOutput),
    Batch(Vec<RawOutput>),
}

/// The contents of a [`RawResponse`].
pub enum RawResponseView {
    Single(RawOutput),
    Batch(Seq<RawOutput>),
}

impl View for RawResponse {
    type V = RawResponseView;

    open spec fn view(&self) -> RawResponseView {
        match self {
            RawResponse::Single(output) => RawResponseView::Single(*output),
            RawResponse::Batch(outputs) => RawResponseView::Batch(outputs@),
        }
    }
}

/// What came of parsing, with the error as text.
pub open spec fn parsed<T>(result: Result<T, String>) -> Result<T, Seq<char>> {
    match result {
        Ok(value) => Ok(value),
        Err(text) => Err(text@),
    }
}

/// The response that some bytes parse to, or the `Debug` text of the error.
pub uninterp spec fn response_of_bytes(bytes: Seq<u8>) -> Result<RawResponseView, Seq<char>>;

/// `serde_json::from_slice` for a `jsonrpc_core::Response`: what comes of it depends on the
/// bytes alone.
#[verifier::external_body]
pub(crate) fn response_from_slice(bytes: &[u8]) -> (r: Result<RawResponse, String>)
    ensures
        response_of_bytes(bytes@) == match r {
            Ok(response) => Ok::<RawResponseView, Seq<char>>(response@),
            Err(text) => Err(text@),
        },
{
    match serde_json::from_slice(bytes) {
        Ok(jsonrpc_core::Response::Single(output)) => Ok(RawResponse::Single(output)),
        Ok(jsonrpc_core::Response::Batch(outputs)) => Ok(RawResponse::Batch(outputs)),
        Err(e) => Err(format!("{:?}", e)),
    }
}

/// The response that a JSON value reads as, if it reads as one.
pub uninterp spec fn response_of_value(value: serde_json::Value) -> Option<RawResponseView>;

/// `serde_json::from_value` for a `jsonrpc_core::Response`: what comes of it depends on the
/// value alone.
#[verifier::external_body]
pub(crate) fn response_from_value(value: serde_json::Value) -> (r: Option<RawResponse>)
    ensures
        response_of_value(value) == match r {
            Some(response) => Some(response@),
            None => None,
        },
{
    match serde_json::from_value(value) {
        Ok(jsonrpc_core::Response::Single(output)) => Some(RawResponse::Single(output)),
        Ok(jsonrpc_core::Response::Batch(outputs)) => Some(RawResponse::Batch(outputs)),
        Err(_) => None,
    }
}

/// The notification that some bytes parse to, or the `Debug` text of the error.
pub uninterp spec fn notification_of_bytes(bytes: Seq<u8>) -> Result<NotificationView, Seq<char>>;

/// `serde_json::from_slice` for a `jsonrpc_core::Notification`: what comes of it depends on the
/// bytes alone.
#[verifier::external_body]
pub(crate) fn notification_from_slice(bytes: &[u8]) -> (r: Result<Notification, String>)
    ensures
        notification_of_bytes(bytes@) == match r {
            Ok(notification) => Ok::<NotificationView, Seq<char>>(notification@),
            Err(text) => Err(text@),
        },
{
    let n: jsonrpc_core::Notification =
        serde_json::from_slice(bytes).map_err(|e| format!("{:?}", e))?;
    let jsonrpc = n.jsonrpc.map(|v| match v { jsonrpc_core::Version::V2 => Version::V2 });
    let params = match n.params {
        jsonrpc_core::Params::None => Params::Nothing,
        jsonrpc_core::Params::Array(values) => Params::Array(values),
        jsonrpc_core::Params::Map(members) => Params::Object(members),
    };
    Ok(Notification { jsonrpc, method: n.method, params })
}

/// The notification that a JSON value reads as, if it reads as one.
pub uninterp spec fn notification_of_value(value: serde_json::Value) -> Option<NotificationView>;

/// `serde_json::from_value` for a `jsonrpc_core::Notification`: what comes of it depends on the
/// value alone.
#[verifier::external_body]
pub(crate) fn notification_from_value(value: serde_json::Value) -> (r: Option<Notification>)
    ensures
        notification_of_value(value) == match r {
            Some(notification) => Some(notification@),
            None => None,
        },
{
    let n: jsonrpc_core::Notification = serde_json::from_value(value).ok()?;
    let jsonrpc = n.jsonrpc.map(|v| match v { jsonrpc_core::Version::V2 => Version::V2 });
    let params = match n.params {
        jsonrpc_core::Params::None => Params::Nothing,
        jsonrpc_core::Params::Array(values) => Params::Array(values),
        jsonrpc_core::Params::Map(members) => Params::Object(members),
    };
    Some(Notification { jsonrpc, method: n.method, params })
}

/// The response to one call that some bytes parse to, or the text of the error.
pub uninterp spec fn output_of_bytes(bytes: Seq<u8>) -> Result<RawOutput, Seq<char>>;

/// `serde_json::from_slice` for a `jsonrpc_core::Output`: what comes of it depends on the bytes
/// alone.
#[verifier::external_body]
pub(crate) fn output_from_slice(bytes: &[u8]) -> (r: Result<RawOutput, String>)
    ensures
        output_of_bytes(bytes@) == parsed(r),
{
    serde_json::from_slice(bytes).map_err(|e| format!("{}", e))
}

/// The JSON value that some bytes parse to, or the text of the error.
pub uninterp spec fn value_of_bytes(bytes: Seq<u8>) -> Result<serde_json::Value, Seq<char>>;

/// `serde_json::from_slice` for a `serde_json::Value`: what comes of it depends on the bytes
/// alone.
#[verifier::external_body]
pub(crate) fn value_from_slice(bytes: &[u8]) -> (r: Result<serde_json::Value, String>)
    ensures
        value_of_bytes(bytes@) == parsed(r),
{
    serde_json::from_slice(bytes).map_err(|e| format!("{}", e))
}

/// The response to one call that a JSON value reads as, or the text of the error.
pub uninterp spec fn output_of_value(value: serde_json::Value) -> Result<RawOutput, Seq<char>>;

/// `serde_json::from_value` for a `jsonrpc_core::Output`: what comes of it depends on the value
/// alone.
#[verifier::external_body]
pub(crate) fn output_from_value(value: serde_json::Value) -> (r: Result<RawOutput, String>)
    ensures
        output_of_value(value) == parsed(r),
{
    serde_json::from_value(value).map_err(|e| format!("{}", e))
}

/// The responses to a batch that a JSON value reads as, or the text of the error.
pub uninterp spec fn outputs_of_value(
    value: serde_json::Value,
) -> Result<Seq<RawOutput>, Seq<char>>;

/// `serde_json::from_value` for a list of `jsonrpc_core::Output`: what comes of it depends on
/// the value alone.
#[verifier::external_body]
pub(crate) fn outputs_from_value(value: serde_json::Value) -> (r: Result<Vec<RawOutput>, String>)
    ensures
        outputs_of_value(value) == match r {
            Ok(outputs) => Ok::<Seq<RawOutput>, Seq<char>>(outputs@),
            Err(text) => Err(text@),
        },
{
    serde_json::from_value(value).map_err(|e| format!("{}", e))
}

/// Whether a byte is white space between JSON values.
pub open spec fn is_space(byte: u8) -> bool {
    byte == 0x20 || byte == 0x0a || byte == 0x09 || byte == 0x0d
}

/// Whether some bytes are nothing but white space.
pub open spec fn all_space(bytes: Seq<u8>) -> bool {
    forall|i: int| 0 <= i < bytes.len() ==> is_space(#[trigger] bytes[i])
}

/// Whether a byte closes a JSON string, array or object.
pub open spec fn is_closing(byte: u8) -> bool {
    byte == 0x22 || byte == 0x5d || byte == 0x7d
}

/// Whether a byte opens a JSON string, array or object.
pub open spec fn is_opening(byte: u8) -> bool {
    byte == 0x22 || byte == 0x5b || byte == 0x7b
}

/// Whether the first byte that is no white space, if there is one, opens a JSON string, array or
/// object.
pub open spec fn starts_delimited(bytes: Seq<u8>) -> bool {
    forall|i: int|
        0 <= i < bytes.len() && all_space(bytes.take(i)) && !is_space(#[trigger] bytes[i])
            ==> is_opening(bytes[i])
}

/// The JSON value at the start of some bytes, if a whole one is there, and how many bytes are
/// done with: those up to the end of the value, or the white space before what is no value yet.
pub uninterp spec fn first_value(bytes: Seq<u8>) -> (Option<serde_json::Value>, nat);

/// One step of a `serde_json::StreamDeserializer` over a slice, and its byte offset after it:
/// both depend on the bytes alone. The offset lies within the bytes, and a value takes up at
/// least one. A value that another byte follows, or that its own last byte closes, is read the
/// same whatever comes behind it. White space that was skipped may be dropped before more bytes
/// are joined to the rest. A string, array or object ends with the byte that closes it, and where
/// it is not there as a whole only the white space before it is done with.
#[verifier::external_body]
pub(crate) fn next_value(bytes: &[u8]) -> (r: (Option<serde_json::Value>, usize))
    ensures
        first_value(bytes@) == (r.0, r.1 as nat),
        r.1 <= bytes@.len(),
        r.0 is Some ==> r.1 > 0,
        r.0 is Some && (r.1 < bytes@.len() || is_closing(bytes@[r.1 - 1])) ==> forall|
            more: Seq<u8>,
        | #[trigger]
            first_value(bytes@ + more) == (r.0, r.1 as nat),
        all_space(bytes@.take(r.1 as int)) ==> forall|more: Seq<u8>|
            {
                let later = bytes@.skip(r.1 as int) + more;
                &&& #[trigger] first_value(bytes@ + more) == (
                    first_value(later).0,
                    r.1 as nat + first_value(later).1,
                )
                &&& first_value(later).1 <= later.len()
                &&& first_value(later).0 is Some ==> first_value(later).1 > 0
            },
        starts_delimited(bytes@) && r.0 is Some ==> is_closing(bytes@[r.1 - 1]),
        starts_delimited(bytes@) && r.0 is None ==> all_space(bytes@.take(r.1 as int)),
{
    let mut stream = serde_json::Deserializer::from_slice(bytes).into_iter();
    let value = match stream.next() {
        Some(Ok(value)) => Some(value),
        _ => None,
    };
    (value, stream.byte_offset())
}

/// The call that `jsonrpc_core` holds for a method call.
pub uninterp spec fn call_of(call: MethodCallView) -> jsonrpc_core::Call;

/// Hands a method call over to `jsonrpc_core`.
#[verifier::external_body]
pub(crate) fn into_call(call: MethodCall) -> (r: jsonrpc_core::Call)
    ensures
        r == call_of(call@),
{
    let jsonrpc = call.jsonrpc.map(|v| match v { Version::V2 => jsonrpc_core::Version::V2 });
    let id = match call.id {
        Id::Null => jsonrpc_core::Id::Null,
        Id::Num(n) => jsonrpc_core::Id::Num(n),
        Id::Str(s) => jsonrpc_core::Id::Str(s),
    };
    let params = match call.params {
        Params::Nothing => jsonrpc_core::Params::None,
        Params::Array(values) => jsonrpc_core::Params::Array(values),
        Params::Object(members) => jsonrpc_core::Params::Map(members),
    };
    let method = call.method;
    jsonrpc_core::Call::MethodCall(jsonrpc_core::MethodCall { jsonrpc, method, params, id })
}

/// The JSON text of a request.
pub uninterp spec fn request_json(request: RequestView) -> Seq<char>;

/// `serde_json::to_string` for a `jsonrpc_core::Request`, which never fails: the text depends on
/// the request alone.
#[verifier::external_body]
pub(crate) fn request_to_string(request: &Request) -> (r: String)
    ensures
        r@ == request_json(request@),
{
    let request = match request {
        Request::Single(call) => jsonrpc_core::Request::Single(call.clone()),
        Request::Batch(calls) => jsonrpc_core::Request::Batch(calls.clone()),
    };
    serde_json::to_string(&request).expect("String serialization never fails.")
}

/// The `Debug` text of an error object.
pub uninterp spec fn rpc_error_text(error: RpcError) -> Seq<char>;

/// The derived `Debug` of `jsonrpc_core::Error`: the text depends on the error object alone.
#[verifier::external_body]
pub(crate) fn rpc_error_debug(error: &RpcError) -> (r: String)
    ensures
        r@ == rpc_error_text(*error),
{
    format!("{:?}", error)
}

/// The `Debug` text of a successful response.
pub uninterp spec fn success_text(
    jsonrpc: Option<Version>,
    result: serde_json::Value,
    id: IdView,
) -> Seq<char>;

/// The derived `Debug` of `jsonrpc_core::Success`: the text depends on the response alone.
#[verifier::external_body]
pub(crate) fn success_debug(success: Success) -> (r: String)
    ensures
        r@ == success_text(success.jsonrpc, success.result, success.id@),
{
    let jsonrpc = success.jsonrpc.map(|v| match v { Version::V2 => jsonrpc_core::Version::V2 });
    let id = match success.id {
        Id::Null => jsonrpc_core::Id::Null,
        Id::Num(n) => jsonrpc_core::Id::Num(n),
        Id::Str(s) => jsonrpc_core::Id::Str(s),
    };
    format!("{:?}", jsonrpc_core::Success { jsonrpc, result: success.result, id })
}

} // verus!
