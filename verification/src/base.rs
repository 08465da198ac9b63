//! The error type and the traits that connect the monitor to a ledger.

use std::fmt::Debug;
use vstd::prelude::*;

use crate::text;

verus! {

pub type BatchResult<T> = Result<T, BatchError>;

/// What can go wrong while batches are monitored.
#[derive(Debug, PartialEq, Eq, PartialOrd, Ord)]
pub enum BatchError {
    InternalError(String),
}

impl View for BatchError {
    type V = Seq<char>;

    /// The message of the error.
    open spec fn view(&self) -> Seq<char> {
        match self {
            BatchError::InternalError(message) => message@,
        }
    }
}

impl Clone for BatchError {
    fn clone(&self) -> (copy: Self)
        ensures
            copy@ == self@,
    {
        match self {
            BatchError::InternalError(message) => BatchError::InternalError(message.clone()),
        }
    }
}

/// The text that `{:?}` writes for an error, given what it writes for the message.
pub open spec fn error_shown(quoted_message: Seq<char>) -> Seq<char> {
    "InternalError("@ + quoted_message + ")"@
}

/// Writes an error as `{:?}` does, given the quoted message.
pub fn show_error(quoted_message: &str) -> (shown: String)
    ensures
        shown@ == error_shown(quoted_message@),
{
    let mut shown = String::from_str("InternalError(");
    shown.append(quoted_message);
    shown.append(")");
    shown
}

impl BatchError {
    /// The text that `{:?}` writes for this error.
    pub fn shown(&self) -> (shown: String)
        ensures
            shown@ == error_shown(text::quoted(self@)),
    {
        match self {
            BatchError::InternalError(message) => show_error(
                text::quote(message.as_str()).as_str(),
            ),
        }
    }
}

/// The status of a batch, as a service reported it.
pub trait BatchStatus: Debug {
    fn get_id(&self) -> &str;

    fn is_unknown(&self) -> bool;
}

/// The id of a batch, and of the service that the batch was submitted to.
pub trait BatchId: Debug + Clone + Sync + Send {
    fn get_id(&self) -> &str;

    fn get_service_id(&self) -> &str;
}

/// Where the ids of pending batches are read.
pub trait PendingBatchStore: Send {
    type Id: BatchId;

    fn get_pending_batch_ids(&self, limit: usize) -> BatchResult<Vec<Self::Id>>;
}

/// Where the statuses of batches are requested.
pub trait BatchStatusReader: Send {
    type Status: BatchStatus;

    /// A request that is under way, to be awaited for a
    /// `BatchResult<Vec<Self::Status>>`.
    type Reply<'a> where Self: 'a;

    fn get_batch_statuses<'a>(
        &'a self,
        service_id: &'a str,
        batch_ids: &'a [String],
    ) -> Self::Reply<'a>;

    fn available_connections(&self) -> usize;
}

/// Where new statuses of batches are recorded.
pub trait BatchUpdater: Send {
    type Status: BatchStatus;

    fn update_batch_statuses(&self, service_id: &str, batches: &[Self::Status]) -> BatchResult<()>;
}

} // verus!
