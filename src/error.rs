//! The errors that a mutating operation can end with.

use vstd::prelude::*;

use crate::link::LinkType;

verus! {

/// One fan-out link that could not be written: its tag and the linked id.
#[derive(Clone, Copy, Debug, PartialEq, Eq, Structural)]
pub struct LinkFailure {
    pub kind: LinkType,
    pub id: u128,
}

/// Why a mutating operation failed.
#[derive(Clone, Debug, PartialEq, Eq)]
pub enum EngineError {
    /// There is no current session.
    Unauthorized,
    /// A row would refer to an entity that does not exist.
    ConstraintError { id: u128 },
    /// The payment row could not be inserted; nothing was written.
    PaymentInsertFailed,
    /// Some fan-out links failed; the others were written and stay.
    PartialLinkFailure { failed: Vec<LinkFailure> },
    /// The booking transaction was rolled back; the offending id, if an id
    /// was at fault.
    TransactionAborted { id: Option<u128> },
    /// No booking has this id.
    NotFound { id: u128 },
    /// The booking is completed or cancelled and can no longer change.
    InvalidStatus { id: u128 },
    /// The writes went through but the snapshot could not be fetched again.
    RefreshFailure,
    /// An operation was handed an event that does not fit its current step.
    UnexpectedEvent,
}

} // verus!
