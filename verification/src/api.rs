//! The ways in which a record can fail.

use crate::domain::{ClientId, TransactionId};
use vstd::prelude::*;

verus! {

/// Why a record was not applied.
#[derive(Debug, PartialEq, Eq)]
pub enum ProcessingError {
    /// The record carries a negative amount.
    TransactionIsNotValid { id: TransactionId },
    /// No record with this id is stored.
    TransactionNotFound { id: TransactionId },
    /// A record with this id is stored already.
    TransactionAlreadyExists { id: TransactionId },
    /// The deposit is under dispute already.
    TransactionAlreadyUnderDispute { id: TransactionId },
    /// The record referred to is no deposit.
    TransactionIsNotDisputable { id: TransactionId },
    /// The deposit belongs to the client `client_id`, not to the one who asks.
    TransactionAccessDenied { id: TransactionId, client_id: ClientId },
    /// The account's available funds are less than the amount.
    AccountInsufficientAvailableFunds { client_id: ClientId },
    /// The account's held funds are less than the amount.
    AccountInsufficientHeldFunds { client_id: ClientId },
    /// The account is locked.
    AccountIsLocked { client_id: ClientId },
    /// The store cannot take the result; the message says why.
    UnknownError(String),
}

pub type ProcessingResult<T> = Result<T, ProcessingError>;

/// A [`ProcessingError`] with its message as a sequence of characters.
pub enum ProcessingErrorView {
    TransactionIsNotValid { id: TransactionId },
    TransactionNotFound { id: TransactionId },
    TransactionAlreadyExists { id: TransactionId },
    TransactionAlreadyUnderDispute { id: TransactionId },
    TransactionIsNotDisputable { id: TransactionId },
    TransactionAccessDenied { id: TransactionId, client_id: ClientId },
    AccountInsufficientAvailableFunds { client_id: ClientId },
    AccountInsufficientHeldFunds { client_id: ClientId },
    AccountIsLocked { client_id: ClientId },
    UnknownError(Seq<char>),
}

impl View for ProcessingError {
    type V = ProcessingErrorView;

    open spec fn view(&self) -> ProcessingErrorView {
        match *self {
            ProcessingError::TransactionIsNotValid { id } => {
                ProcessingErrorView::TransactionIsNotValid { id }
            },
            ProcessingError::TransactionNotFound { id } => {
                ProcessingErrorView::TransactionNotFound { id }
            },
            ProcessingError::TransactionAlreadyExists { id } => {
                ProcessingErrorView::TransactionAlreadyExists { id }
            },
            ProcessingError::TransactionAlreadyUnderDispute { id } => {
                ProcessingErrorView::TransactionAlreadyUnderDispute { id }
            },
            ProcessingError::TransactionIsNotDisputable { id } => {
                ProcessingErrorView::TransactionIsNotDisputable { id }
            },
            ProcessingError::TransactionAccessDenied { id, client_id } => {
                ProcessingErrorView::TransactionAccessDenied { id, client_id }
            },
            ProcessingError::AccountInsufficientAvailableFunds { client_id } => {
                ProcessingErrorView::AccountInsufficientAvailableFunds { client_id }
            },
            ProcessingError::AccountInsufficientHeldFunds { client_id } => {
                ProcessingErrorView::AccountInsufficientHeldFunds { client_id }
            },
            ProcessingError::AccountIsLocked { client_id } => {
                ProcessingErrorView::AccountIsLocked { client_id }
            },
            ProcessingError::UnknownError(message) => ProcessingErrorView::UnknownError(message@),
        }
    }
}

/// A result with its error by its view.
pub open spec fn result_view(r: ProcessingResult<()>) -> Result<(), ProcessingErrorView> {
    match r {
        Ok(_) => Ok(()),
        Err(e) => Err(e@),
    }
}

/// The message of the error for an amount that cannot be written exactly.
pub open spec fn out_of_range_message() -> Seq<char> {
    "amount out of range"@
}

/// The error for an account whose new balance cannot be written exactly.
pub fn amount_out_of_range() -> (e: ProcessingError)
    ensures
        e@ == ProcessingErrorView::UnknownError(out_of_range_message()),
{
    ProcessingError::UnknownError("amount out of range".to_owned())
}

} // verus!
