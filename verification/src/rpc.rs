//! The JSON-RPC 2.0 messages that a client exchanges with a node.
//!
//! Values, error objects and calls are those of `serde_json` and `jsonrpc_core`; nothing here
//! looks inside them. What the transports read of a message (its id, its outcome, its
//! parameters) is held in the types below.
use jsonrpc_core::Error as RpcError;
use serde_json::Value;
use vstd::prelude::*;

use crate::json::entries;
use crate::RequestId;

verus! {

/// The protocol version that a message names.
#[derive(Clone, Copy, Debug, PartialEq, Eq, Structural)]
pub enum Version {
    /// JSON-RPC 2.0.
    V2,
}

/// What ties a response to its request.
#[derive(Debug, PartialEq, Eq)]
pub enum Id {
    /// No id.
    Null,
    /// A number.
    Num(u64),
    /// A text.
    Str(String),
}

/// The contents of an [`Id`].
pub enum IdView {
    Null,
    Num(u64),
    Str(Seq<char>),
}

impl View for Id {
    type V = IdView;

    open spec fn view(&self) -> IdView {
        match self {
            Id::Null => IdView::Null,
            Id::Num(n) => IdView::Num(*n),
            Id::Str(s) => IdView::Str(s@),
        }
    }
}

/// The request that an id stands for: the number in it, if it is one.
pub open spec fn request_of_id(id: IdView) -> Option<RequestId> {
    match id {
        IdView::Num(number) => Some(number as RequestId),
        _ => None,
    }
}

/// The parameters of a call or of a notification.
#[derive(Debug, PartialEq)]
pub enum Params {
    /// No parameters.
    Nothing,
    /// Parameters by position.
    Array(Vec<Value>),
    /// Parameters by name.
    Object(serde_json::Map<String, Value>),
}

/// The contents of [`Params`].
pub enum ParamsView {
    Nothing,
    Array(Seq<Value>),
    Object(Map<Seq<char>, Value>),
}

impl View for Params {
    type V = ParamsView;

    open spec fn view(&self) -> ParamsView {
        match self {
            Params::Nothing => ParamsView::Nothing,
            Params::Array(values) => ParamsView::Array(values@),
            Params::Object(members) => ParamsView::Object(entries(*members)),
        }
    }
}

/// The call of a method, to which the node owes a response.
#[derive(Debug, PartialEq)]
pub struct MethodCall {
    pub jsonrpc: Option<Version>,
    pub method: String,
    pub params: Params,
    pub id: Id,
}

/// The contents of a [`MethodCall`].
pub struct MethodCallView {
    pub jsonrpc: Option<Version>,
    pub method: Seq<char>,
    pub params: ParamsView,
    pub id: IdView,
}

impl View for MethodCall {
    type V = MethodCallView;

    open spec fn view(&self) -> MethodCallView {
        MethodCallView {
            jsonrpc: self.jsonrpc,
            method: self.method@,
            params: self.params@,
            id: self.id@,
        }
    }
}

/// What a client sends at once: one call, or a batch of them.
#[derive(Debug, PartialEq)]
pub enum Request {
    Single(jsonrpc_core::Call),
    Batch(Vec<jsonrpc_core::Call>),
}

/// The contents of a [`Request`].
pub enum RequestView {
    Single(jsonrpc_core::Call),
    Batch(Seq<jsonrpc_core::Call>),
}

impl View for Request {
    type V = RequestView;

    open spec fn view(&self) -> RequestView {
        match self {
            Request::Single(call) => RequestView::Single(*call),
            Request::Batch(calls) => RequestView::Batch(calls@),
        }
    }
}

/// A message that the node sends without having been asked.
#[derive(Debug, PartialEq)]
pub struct Notification {
    pub jsonrpc: Option<Version>,
    pub method: String,
    pub params: Params,
}

/// The contents of a [`Notification`].
pub struct NotificationView {
    pub jsonrpc: Option<Version>,
    pub method: Seq<char>,
    pub params: ParamsView,
}

impl View for Notification {
    type V = NotificationView;

    open spec fn view(&self) -> NotificationView {
        NotificationView {
            jsonrpc: self.jsonrpc,
            method: self.method@,
            params: self.params@,
        }
    }
}

/// The response to a call that succeeded.
#[derive(Debug, PartialEq)]
pub struct Success {
    pub jsonrpc: Option<Version>,
    pub result: Value,
    pub id: Id,
}

/// The response to a call that failed.
#[derive(Debug, PartialEq)]
pub struct Failure {
    pub jsonrpc: Option<Version>,
    pub error: RpcError,
    pub id: Id,
}

/// The response to one call.
#[derive(Debug, PartialEq)]
pub enum Output {
    Success(Success),
    Failure(Failure),
}

/// The contents of an [`Output`].
pub struct OutputView {
    pub jsonrpc: Option<Version>,
    pub outcome: Result<Value, RpcError>,
    pub id: IdView,
}

impl View for Output {
    type V = OutputView;

    open spec fn view(&self) -> OutputView {
        match self {
            Output::Success(s) => OutputView {
                jsonrpc: s.jsonrpc,
                outcome: Ok(s.result),
                id: s.id@,
            },
            Output::Failure(f) => OutputView {
                jsonrpc: f.jsonrpc,
                outcome: Err(f.error),
                id: f.id@,
            },
        }
    }
}

impl Output {
    /// The id of the call that this answers.
    pub fn id(&self) -> (id: &Id)
        ensures
            id@ == self@.id,
    {
        match self {
            Output::Success(s) => &s.id,
            Output::Failure(f) => &f.id,
        }
    }
}

/// The contents of a list of responses.
pub open spec fn outputs_view(outputs: Seq<Output>) -> Seq<OutputView> {
    outputs.map_values(|o: Output| o@)
}

/// What the node sends back at once: the response to one call, or those to a batch.
#[derive(Debug, PartialEq)]
pub enum Response {
    Single(Output),
    Batch(Vec<Output>),
}

/// The contents of a [`Response`].
pub enum ResponseView {
    Single(OutputView),
    Batch(Seq<OutputView>),
}

impl View for Response {
    type V = ResponseView;

    open spec fn view(&self) -> ResponseView {
        match self {
            Response::Single(output) => ResponseView::Single(output@),
            Response::Batch(outputs) => ResponseView::Batch(outputs_view(outputs@)),
        }
    }
}

impl ResponseView {
    /// The responses in it, in the order in which the node gave them.
    pub open spec fn outputs(self) -> Seq<OutputView> {
        match self {
            ResponseView::Single(output) => seq![output],
            ResponseView::Batch(outputs) => outputs,
        }
    }
}

impl Response {
    /// The responses in it, in the order in which the node gave them.
    pub fn into_outputs(self) -> (outputs: Vec<Output>)
        ensures
            outputs_view(outputs@) == self@.outputs(),
    {
        match self {
            Response::Single(output) => {
                let mut outputs: Vec<Output> = Vec::new();
                outputs.push(output);
                assert(outputs_view(outputs@) =~= seq![output@]);
                outputs
            },
            Response::Batch(outputs) => outputs,
        }
    }
}

} // verus!
