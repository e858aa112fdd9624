//! What can go wrong between a client and its node.
use jsonrpc_core::Error as RpcError;
use serde_json::Value;
use vstd::prelude::*;

use crate::json::{rpc_error_debug, rpc_error_text};
use crate::text::{decimal, decimal_digits, join};

verus! {

/// A failure of the connection itself.
#[derive(Debug, PartialEq)]
pub enum TransportError {
    /// The peer answered with this status code.
    Code(u16),
    /// Something failed that has only a description.
    Message(String),
}

/// The contents of a [`TransportError`].
pub enum TransportErrorView {
    Code(u16),
    Message(Seq<char>),
}

impl View for TransportError {
    type V = TransportErrorView;

    open spec fn view(&self) -> TransportErrorView {
        match self {
            TransportError::Code(code) => TransportErrorView::Code(*code),
            TransportError::Message(text) => TransportErrorView::Message(text@),
        }
    }
}

impl TransportErrorView {
    /// How the error reads.
    pub open spec fn text(self) -> Seq<char> {
        match self {
            TransportErrorView::Code(code) => "code "@ + decimal_digits(code as nat),
            TransportErrorView::Message(text) => "message "@ + text,
        }
    }
}

impl TransportError {
    /// How the error reads.
    pub fn to_string(&self) -> (s: String)
        ensures
            s@ == self@.text(),
    {
        match self {
            TransportError::Code(code) => join("code ", decimal(*code as u64).as_str()),
            TransportError::Message(text) => join("message ", text.as_str()),
        }
    }
}

impl Clone for TransportError {
    fn clone(&self) -> (r: TransportError)
        ensures
            r@ == self@,
    {
        match self {
            TransportError::Code(code) => TransportError::Code(*code),
            TransportError::Message(text) => TransportError::Message(text.clone()),
        }
    }
}

/// Why a call has no result.
#[derive(Debug, PartialEq)]
pub enum Error {
    /// The response cannot be made sense of.
    InvalidResponse(String),
    /// The connection failed.
    Transport(TransportError),
    /// The node answered with an error object.
    Rpc(RpcError),
}

/// The contents of an [`Error`].
pub enum ErrorView {
    InvalidResponse(Seq<char>),
    Transport(TransportErrorView),
    Rpc(RpcError),
}

impl View for Error {
    type V = ErrorView;

    open spec fn view(&self) -> ErrorView {
        match self {
            Error::InvalidResponse(text) => ErrorView::InvalidResponse(text@),
            Error::Transport(error) => ErrorView::Transport(error@),
            Error::Rpc(error) => ErrorView::Rpc(*error),
        }
    }
}

impl ErrorView {
    /// How the error reads.
    pub open spec fn text(self) -> Seq<char> {
        match self {
            ErrorView::InvalidResponse(text) => "Got invalid response: "@ + text,
            ErrorView::Transport(error) => "Transport error: "@ + error.text(),
            ErrorView::Rpc(error) => "RPC error: "@ + rpc_error_text(error),
        }
    }

    /// A failure of the connection with this description.
    pub open spec fn message(text: Seq<char>) -> ErrorView {
        ErrorView::Transport(TransportErrorView::Message(text))
    }

    /// A failure of the connection with this status code.
    pub open spec fn code(code: u16) -> ErrorView {
        ErrorView::Transport(TransportErrorView::Code(code))
    }
}

impl Error {
    /// How the error reads.
    pub fn to_string(&self) -> (s: String)
        ensures
            s@ == self@.text(),
    {
        match self {
            Error::InvalidResponse(text) => join("Got invalid response: ", text.as_str()),
            Error::Transport(error) => join("Transport error: ", error.to_string().as_str()),
            Error::Rpc(error) => join("RPC error: ", rpc_error_debug(error).as_str()),
        }
    }

    /// A failure of the connection with this description.
    pub fn message(text: String) -> (e: Error)
        ensures
            e@ == ErrorView::message(text@),
    {
        Error::Transport(TransportError::Message(text))
    }
}

impl Clone for Error {
    fn clone(&self) -> (r: Error)
        ensures
            r@ == self@,
    {
        match self {
            Error::InvalidResponse(text) => Error::InvalidResponse(text.clone()),
            Error::Transport(error) => Error::Transport(error.clone()),
            Error::Rpc(error) => Error::Rpc(error.clone()),
        }
    }
}

impl From<RpcError> for Error {
    fn from(error: RpcError) -> (e: Error) {
        Error::Rpc(error)
    }
}

impl vstd::std_specs::convert::FromSpecImpl<RpcError> for Error {
    open spec fn obeys_from_spec() -> bool {
        true
    }

    open spec fn from_spec(error: RpcError) -> Error {
        Error::Rpc(error)
    }
}

/// The contents of what came of one call.
pub open spec fn result_view(result: Result<Value, Error>) -> Result<Value, ErrorView> {
    match result {
        Ok(value) => Ok(value),
        Err(error) => Err(error@),
    }
}

/// The contents of what came of each of several calls.
pub open spec fn results_view(results: Seq<Result<Value, Error>>) -> Seq<
    Result<Value, ErrorView>,
> {
    results.map_values(|r: Result<Value, Error>| result_view(r))
}

/// The contents of what came of a batch.
pub open spec fn batch_view(batch: Result<Vec<Result<Value, Error>>, Error>) -> Result<
    Seq<Result<Value, ErrorView>>,
    ErrorView,
> {
    match batch {
        Ok(results) => Ok(results_view(results@)),
        Err(error) => Err(error@),
    }
}

} // verus!
