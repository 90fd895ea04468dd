//! Decisions taken on what a database round trip reported: whether a
//! session authorizes a write, whether an update found its booking, and how
//! the per-item results of a fan-out add up to one result.

use vstd::prelude::*;

use crate::engine::{BookingStatus, Session};
use crate::error::{EngineError, LinkFailure};
use crate::link::LinkType;

verus! {

/// The company on whose behalf a mutation may write: that of the session,
/// if there is one.
pub fn authorize(session: &Option<Session>) -> (r: Result<u128, EngineError>)
    ensures
        match session {
            Some(s) => r == Ok::<u128, EngineError>(s.company),
            None => r == Err::<u128, EngineError>(EngineError::Unauthorized),
        },
{
    match session {
        Some(s) => Ok(s.company),
        None => Err(EngineError::Unauthorized),
    }
}

/// An update of booking `booking` succeeded only if it changed some row.
pub fn update_outcome(rows_affected: u64, booking: u128) -> (r: Result<(), EngineError>)
    ensures
        rows_affected > 0 ==> r is Ok,
        rows_affected == 0 ==> r == Err::<(), EngineError>(EngineError::NotFound { id: booking }),
{
    if rows_affected == 0 {
        Err(EngineError::NotFound { id: booking })
    } else {
        Ok(())
    }
}

/// Whether a booking whose status the store reported (`None`: no such
/// booking) may be moved to new times: only a pending one may.
pub fn reschedule_allowed(status: Option<BookingStatus>, booking: u128) -> (r: Result<(), EngineError>)
    ensures
        match status {
            None => r == Err::<(), EngineError>(EngineError::NotFound { id: booking }),
            Some(BookingStatus::Pending) => r is Ok,
            Some(_) => r == Err::<(), EngineError>(EngineError::InvalidStatus { id: booking }),
        },
{
    match status {
        None => Err(EngineError::NotFound { id: booking }),
        Some(BookingStatus::Pending) => Ok(()),
        Some(_) => Err(EngineError::InvalidStatus { id: booking }),
    }
}

/// The items of `ids` whose write did not succeed (`ok[i]` false), in
/// order, each with its tag.
pub open spec fn refusals_of(ids: Seq<u128>, ok: Seq<bool>, kind: LinkType) -> Seq<LinkFailure>
    decreases ids.len(),
{
    if ids.len() == 0 || ok.len() == 0 {
        Seq::empty()
    } else {
        let rest = refusals_of(ids.drop_last(), ok.drop_last(), kind);
        if ok.last() {
            rest
        } else {
            rest.push(LinkFailure { kind, id: ids.last() })
        }
    }
}

/// Gathers the failed items of a fan-out, given whether each write went
/// through.
pub fn collect_refusals(ids: &Vec<u128>, ok: &Vec<bool>, kind: LinkType) -> (r: Vec<LinkFailure>)
    requires
        ids@.len() == ok@.len(),
    ensures
        r@ == refusals_of(ids@, ok@, kind),
{
    let mut out: Vec<LinkFailure> = Vec::new();
    let mut i: usize = 0;
    while i < ids.len()
        invariant
            0 <= i <= ids@.len(),
            ids@.len() == ok@.len(),
            out@ == refusals_of(ids@.take(i as int), ok@.take(i as int), kind),
        decreases ids@.len() - i,
    {
        proof {
            assert(ids@.take(i as int + 1).drop_last() =~= ids@.take(i as int));
            assert(ok@.take(i as int + 1).drop_last() =~= ok@.take(i as int));
        }
        if !ok[i] {
            out.push(LinkFailure { kind, id: ids[i] });
        }
        i = i + 1;
    }
    assert(ids@.take(i as int) =~= ids@);
    assert(ok@.take(i as int) =~= ok@);
    out
}

/// A checkout whose fan-out refused nothing returns its payment's id;
/// otherwise it fails naming every refused item.
pub fn fan_out_outcome(payment: u128, failed: Vec<LinkFailure>) -> (r: Result<u128, EngineError>)
    ensures
        failed@.len() == 0 ==> r == Ok::<u128, EngineError>(payment),
        failed@.len() > 0 ==> (r matches Err(EngineError::PartialLinkFailure { failed: f }) && f@
            == failed@),
{
    if failed.len() == 0 {
        Ok(payment)
    } else {
        Err(EngineError::PartialLinkFailure { failed })
    }
}

/// What the notification service made of a request to send a receipt.
#[derive(Debug)]
pub enum EmailOutcome {
    Sent,
    /// Not delivered, with the service's explanation.
    Failed { reason: String },
}

/// A receipt was sent exactly when the service answered with success; on
/// failure the answer's text is the reason, or "Unknown error" when it could
/// not be read.
pub fn email_outcome(success: bool, body: Option<String>) -> (r: EmailOutcome)
    ensures
        success ==> r is Sent,
        !success ==> match body {
            Some(t) => r == EmailOutcome::Failed { reason: t },
            None => r is Failed && r->reason@ == "Unknown error"@,
        },
{
    if success {
        EmailOutcome::Sent
    } else {
        match body {
            Some(t) => EmailOutcome::Failed { reason: t },
            None => EmailOutcome::Failed { reason: "Unknown error".to_owned() },
        }
    }
}

} // verus!
