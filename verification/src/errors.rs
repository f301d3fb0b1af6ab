//! Error kinds surfaced by the tracker core.

use vstd::prelude::*;

verus! {

/// Every way a store or validation operation can fail. A failed operation
/// reports a specific reason and leaves the persisted log as it was, except
/// where `StorageFailure` reports that the persistence layer itself failed.
#[derive(Clone, Copy, Debug, PartialEq, Eq, Structural)]
pub enum TrackerError {
    /// The persistence layer failed, or a stored record is missing or malformed.
    StorageFailure,
    /// The requested entry index is at or past the current length.
    NotFound,
    /// An update request carried no field to change.
    NoChange,
    /// An appended state equals the state of the current last entry.
    DuplicateState,
    /// A new timestamp precedes the timestamp of the entry before it.
    TimestampRegression,
    /// An updated timestamp passes the timestamp of the entry after it.
    TimestampOutOfOrder,
    /// An appended timestamp lies outside the acceptance window around now.
    TimestampOutOfWindow,
}

impl TrackerError {
    /// Short description of the error, for callers that render messages.
    pub fn message(&self) -> &'static str {
        match self {
            TrackerError::StorageFailure => "storage failure",
            TrackerError::NotFound => "entry index out of range",
            TrackerError::NoChange => "no changes specified",
            TrackerError::DuplicateState => "new state same as current state",
            TrackerError::TimestampRegression => "new starttime earlier than current starttime",
            TrackerError::TimestampOutOfOrder => "new starttime later than next event",
            TrackerError::TimestampOutOfWindow => "wrong timestamp",
        }
    }
}

} // verus!
