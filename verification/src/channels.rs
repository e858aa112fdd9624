//! How channels say that their other end is gone.
use futures::channel::oneshot::Canceled;
use tokio::sync::mpsc::error::SendError;
use vstd::prelude::*;

verus! {

/// Says that whoever was to send a response is gone.
#[verifier::external_type_specification]
#[verifier::external_body]
pub struct ExCanceled(Canceled);

/// The `Display` text of `futures::channel::oneshot::Canceled`, which is always the same.
#[verifier::external_body]
pub(crate) fn canceled_display(canceled: &Canceled) -> (r: String)
    ensures
        r@ == "oneshot canceled"@,
{
    format!("{}", canceled)
}

/// The derived `Debug` text of `futures::channel::oneshot::Canceled`, which is always the same.
#[verifier::external_body]
pub(crate) fn canceled_debug(canceled: &Canceled) -> (r: String)
    ensures
        r@ == "Canceled"@,
{
    format!("{:?}", canceled)
}

/// Gives back what could not be sent because the receiver is gone.
#[verifier::external_type_specification]
#[verifier::external_body]
#[verifier::reject_recursive_types(T)]
pub struct ExSendError<T>(SendError<T>);

/// The `Debug` text of `tokio::sync::mpsc::error::SendError`, which is always the same.
#[verifier::external_body]
pub(crate) fn send_error_debug<T>(error: &SendError<T>) -> (r: String)
    ensures
        r@ == "SendError { .. }"@,
{
    format!("{:?}", error)
}

} // verus!
