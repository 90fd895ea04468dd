//! The mutating operations as step functions, for a store that answers
//! each write asynchronously. Each takes the operation's current state and
//! what the store reported, and gives the next state and the next action to
//! perform. The caller performs the action, reports how it went, and stops
//! at `Finish`.

use vstd::prelude::*;

use crate::error::{EngineError, LinkFailure};
use crate::link::LinkType;
use crate::outcome::{refusals_of, collect_refusals};
use crate::store::ToggleOutcome;

verus! {

// Toggling the link between a campaign and the session's company.

pub enum ToggleState {
    /// Waiting to hear whether the link exists.
    Checking { campaign: u128 },
    /// Waiting for the insert or delete that gives `outcome`.
    Writing { campaign: u128, outcome: ToggleOutcome },
    /// Waiting for the snapshot to be fetched again.
    Refreshing { outcome: ToggleOutcome },
    Done,
}

pub enum ToggleEvent {
    Checked { exists: bool },
    Written { ok: bool },
    Refreshed { ok: bool },
}

pub enum ToggleAction {
    /// Look the link up.
    Check,
    Delete,
    Insert,
    /// Fetch the snapshot again.
    Refresh,
    Finish(Result<ToggleOutcome, EngineError>),
}

/// A toggle of `campaign` starts by looking the link up.
pub fn toggle_start(campaign: u128) -> (r: (ToggleState, ToggleAction))
    ensures
        r.0 == (ToggleState::Checking { campaign }),
        r.1 == ToggleAction::Check,
{
    (ToggleState::Checking { campaign }, ToggleAction::Check)
}

/// One step of a toggle: an existing link is deleted and an absent one
/// inserted; a failed write ends it with the campaign named; a successful
/// one is followed by a refresh, whose result decides the answer.
pub fn toggle_next(st: &ToggleState, ev: ToggleEvent) -> (r: (ToggleState, ToggleAction))
    ensures
        match (*st, ev) {
            (ToggleState::Checking { campaign }, ToggleEvent::Checked { exists }) => if exists {
                r == (ToggleState::Writing { campaign, outcome: ToggleOutcome::Unlinked }, ToggleAction::Delete)
            } else {
                r == (ToggleState::Writing { campaign, outcome: ToggleOutcome::Linked }, ToggleAction::Insert)
            },
            (ToggleState::Writing { campaign, outcome }, ToggleEvent::Written { ok }) => if ok {
                r == (ToggleState::Refreshing { outcome }, ToggleAction::Refresh)
            } else {
                r == (ToggleState::Done, ToggleAction::Finish(
                    Err(EngineError::ConstraintError { id: campaign }),
                ))
            },
            (ToggleState::Refreshing { outcome }, ToggleEvent::Refreshed { ok }) => if ok {
                r == (ToggleState::Done, ToggleAction::Finish(Ok(outcome)))
            } else {
                r == (ToggleState::Done, ToggleAction::Finish(Err(EngineError::RefreshFailure)))
            },
            _ => r == (ToggleState::Done, ToggleAction::Finish(Err(EngineError::UnexpectedEvent))),
        },
{
    match (st, ev) {
        (ToggleState::Checking { campaign }, ToggleEvent::Checked { exists }) => {
            if exists {
                (
                    ToggleState::Writing { campaign: *campaign, outcome: ToggleOutcome::Unlinked },
                    ToggleAction::Delete,
                )
            } else {
                (
                    ToggleState::Writing { campaign: *campaign, outcome: ToggleOutcome::Linked },
                    ToggleAction::Insert,
                )
            }
        },
        (ToggleState::Writing { campaign, outcome }, ToggleEvent::Written { ok }) => {
            if ok {
                (ToggleState::Refreshing { outcome: *outcome }, ToggleAction::Refresh)
            } else {
                (
                    ToggleState::Done,
                    ToggleAction::Finish(Err(EngineError::ConstraintError { id: *campaign })),
                )
            }
        },
        (ToggleState::Refreshing { outcome }, ToggleEvent::Refreshed { ok }) => {
            if ok {
                (ToggleState::Done, ToggleAction::Finish(Ok(*outcome)))
            } else {
                (ToggleState::Done, ToggleAction::Finish(Err(EngineError::RefreshFailure)))
            }
        },
        _ => (ToggleState::Done, ToggleAction::Finish(Err(EngineError::UnexpectedEvent))),
    }
}

// Creating a booking and its service links in one transaction.

/// The booking to create. Times stay with the caller, which writes them.
pub struct BookingRequest {
    pub customer: u128,
    pub staff: u128,
    pub services: Vec<u128>,
}

pub enum TxState {
    /// Waiting for the booking row.
    Inserting,
    /// Waiting for the link of `services[next]` to `booking`.
    Linking { booking: u128, next: usize },
    /// Waiting for the rollback; `offending` is the id at fault, if known.
    RollingBack { offending: Option<u128> },
    Committing { booking: u128 },
    Refreshing { booking: u128 },
    Done,
}

pub enum TxEvent {
    /// The booking row was inserted under `id`, or (`None`) it failed.
    BookingInserted { id: Option<u128> },
    ServiceLinked { ok: bool },
    RolledBack,
    Committed { ok: bool },
    Refreshed { ok: bool },
}

pub enum TxAction {
    InsertBooking,
    LinkService { booking: u128, service: u128 },
    Rollback,
    Commit,
    Refresh,
    Finish(Result<u128, EngineError>),
}

/// Inside an open transaction, a booking creation starts with the booking
/// row.
pub fn booking_tx_start() -> (r: (TxState, TxAction))
    ensures
        r.0 == TxState::Inserting,
        r.1 == TxAction::InsertBooking,
{
    (TxState::Inserting, TxAction::InsertBooking)
}

/// The step after the booking row, or after the service at `next`, was
/// written: the next service's link, or the commit after the last one.
pub open spec fn after_link(req: &BookingRequest, booking: u128, next: int) -> (TxState, TxAction) {
    if next < req.services@.len() {
        (
            TxState::Linking { booking, next: next as usize },
            TxAction::LinkService { booking, service: req.services@[next] },
        )
    } else {
        (TxState::Committing { booking }, TxAction::Commit)
    }
}

/// One step of a booking creation: every insert runs inside the
/// transaction, in order; any failure rolls it all back and ends the
/// creation aborted; only after the last service is linked is it committed,
/// and only a committed booking is followed by a refresh.
pub fn booking_tx_next(req: &BookingRequest, st: &TxState, ev: TxEvent) -> (r: (TxState, TxAction))
    ensures
        match (*st, ev) {
            (TxState::Inserting, TxEvent::BookingInserted { id }) => match id {
                Some(b) => r == after_link(req, b, 0),
                None => r == (TxState::RollingBack { offending: None }, TxAction::Rollback),
            },
            (TxState::Linking { booking, next }, TxEvent::ServiceLinked { ok }) => if next
                >= req.services@.len() {
                r == (TxState::Done, TxAction::Finish(Err(EngineError::UnexpectedEvent)))
            } else if ok {
                r == after_link(req, booking, next + 1)
            } else {
                r == (
                    TxState::RollingBack { offending: Some(req.services@[next as int]) },
                    TxAction::Rollback,
                )
            },
            (TxState::RollingBack { offending }, TxEvent::RolledBack) => r == (
                TxState::Done,
                TxAction::Finish(Err(EngineError::TransactionAborted { id: offending })),
            ),
            (TxState::Committing { booking }, TxEvent::Committed { ok }) => if ok {
                r == (TxState::Refreshing { booking }, TxAction::Refresh)
            } else {
                r == (
                    TxState::Done,
                    TxAction::Finish(Err(EngineError::TransactionAborted { id: None })),
                )
            },
            (TxState::Refreshing { booking }, TxEvent::Refreshed { ok }) => if ok {
                r == (TxState::Done, TxAction::Finish(Ok(booking)))
            } else {
                r == (TxState::Done, TxAction::Finish(Err(EngineError::RefreshFailure)))
            },
            _ => r == (TxState::Done, TxAction::Finish(Err(EngineError::UnexpectedEvent))),
        },
{
    match (st, ev) {
        (TxState::Inserting, TxEvent::BookingInserted { id }) => match id {
            Some(b) => link_from(req, b, 0),
            None => (TxState::RollingBack { offending: None }, TxAction::Rollback),
        },
        (TxState::Linking { booking, next }, TxEvent::ServiceLinked { ok }) => {
            if *next >= req.services.len() {
                (TxState::Done, TxAction::Finish(Err(EngineError::UnexpectedEvent)))
            } else if ok {
                link_from(req, *booking, *next + 1)
            } else {
                (TxState::RollingBack { offending: Some(req.services[*next]) }, TxAction::Rollback)
            }
        },
        (TxState::RollingBack { offending }, TxEvent::RolledBack) => (
            TxState::Done,
            TxAction::Finish(Err(EngineError::TransactionAborted { id: *offending })),
        ),
        (TxState::Committing { booking }, TxEvent::Committed { ok }) => {
            if ok {
                (TxState::Refreshing { booking: *booking }, TxAction::Refresh)
            } else {
                (TxState::Done, TxAction::Finish(Err(EngineError::TransactionAborted { id: None })))
            }
        },
        (TxState::Refreshing { booking }, TxEvent::Refreshed { ok }) => {
            if ok {
                (TxState::Done, TxAction::Finish(Ok(*booking)))
            } else {
                (TxState::Done, TxAction::Finish(Err(EngineError::RefreshFailure)))
            }
        },
        _ => (TxState::Done, TxAction::Finish(Err(EngineError::UnexpectedEvent))),
    }
}

fn link_from(req: &BookingRequest, booking: u128, next: usize) -> (r: (TxState, TxAction))
    ensures
        r == after_link(req, booking, next as int),
{
    if next < req.services.len() {
        (
            TxState::Linking { booking, next },
            TxAction::LinkService { booking, service: req.services[next] },
        )
    } else {
        (TxState::Committing { booking }, TxAction::Commit)
    }
}

// Recording a payment and linking it.

/// What a checkout will write. `amount` is in hundredths; `charges` is the
/// number of ad-hoc charge lines.
pub struct CheckoutPlan {
    pub booking: Option<u128>,
    pub services: Vec<u128>,
    pub discounts: Vec<u128>,
    pub charges: usize,
    pub amount: i64,
}

pub enum CheckoutState {
    /// Waiting for the payment row.
    Paying,
    /// Waiting for the booking to be completed and linked.
    Booking { payment: u128 },
    /// Waiting for every fan-out write.
    Linking { payment: u128 },
    Refreshing { payment: u128 },
    Done,
}

pub enum CheckoutEvent {
    PaymentInserted { id: u128 },
    PaymentFailed,
    /// The booking's status update changed `updated` rows, and its link to
    /// the payment was (`linked`) or was not written.
    BookingLinked { updated: u64, linked: bool },
    /// Whether each service link, each discount link and each charge (its
    /// row and its link) was written, in the plan's order.
    LinksDone { services_ok: Vec<bool>, discounts_ok: Vec<bool>, charges_ok: Vec<bool> },
    Refreshed { ok: bool },
}

pub enum CheckoutAction {
    InsertPayment,
    /// Mark the booking completed and link it to the payment.
    CompleteBooking { payment: u128, booking: u128 },
    /// Write every service link, discount link and charge, concurrently.
    LinkAll { payment: u128 },
    Refresh,
    Finish(Result<u128, EngineError>),
}

/// The failed charges, each named by its position among the charges.
pub open spec fn charge_refusals(ok: Seq<bool>) -> Seq<LinkFailure>
    decreases ok.len(),
{
    if ok.len() == 0 {
        Seq::empty()
    } else {
        let rest = charge_refusals(ok.drop_last());
        if ok.last() {
            rest
        } else {
            rest.push(LinkFailure { kind: LinkType::Auxiliary, id: (ok.len() - 1) as u128 })
        }
    }
}

/// Every fan-out write of a checkout that failed: services, then
/// discounts, then charges.
pub open spec fn fan_out_refusals(
    plan: &CheckoutPlan,
    services_ok: Seq<bool>,
    discounts_ok: Seq<bool>,
    charges_ok: Seq<bool>,
) -> Seq<LinkFailure> {
    refusals_of(plan.services@, services_ok, LinkType::Services) + refusals_of(
        plan.discounts@,
        discounts_ok,
        LinkType::Discounts,
    ) + charge_refusals(charges_ok)
}

/// A checkout starts with the payment row, unless the amount is not
/// positive, which no payment may have.
pub fn checkout_start(plan: &CheckoutPlan) -> (r: (CheckoutState, CheckoutAction))
    ensures
        plan.amount > 0 ==> r == (CheckoutState::Paying, CheckoutAction::InsertPayment),
        plan.amount <= 0 ==> r == (
            CheckoutState::Done,
            CheckoutAction::Finish(Err(EngineError::PaymentInsertFailed)),
        ),
{
    if plan.amount > 0 {
        (CheckoutState::Paying, CheckoutAction::InsertPayment)
    } else {
        (CheckoutState::Done, CheckoutAction::Finish(Err(EngineError::PaymentInsertFailed)))
    }
}

fn failed_charges(ok: &Vec<bool>) -> (r: Vec<LinkFailure>)
    ensures
        r@ == charge_refusals(ok@),
{
    let mut out: Vec<LinkFailure> = Vec::new();
    let mut i: usize = 0;
    while i < ok.len()
        invariant
            0 <= i <= ok@.len(),
            out@ == charge_refusals(ok@.take(i as int)),
        decreases ok@.len() - i,
    {
        proof {
            assert(ok@.take(i as int + 1).drop_last() =~= ok@.take(i as int));
        }
        if !ok[i] {
            out.push(LinkFailure { kind: LinkType::Auxiliary, id: i as u128 });
        }
        i = i + 1;
    }
    assert(ok@.take(i as int) =~= ok@);
    out
}

/// One step of a checkout: a failed payment ends it with nothing written;
/// a booking that was not found or not linked ends it with that booking
/// named, the payment kept; after the fan-out, a refresh follows exactly
/// when every write went through, and otherwise every failed one is named.
pub fn checkout_next(plan: &CheckoutPlan, st: &CheckoutState, ev: CheckoutEvent) -> (r: (
    CheckoutState,
    CheckoutAction,
))
    ensures
        match (*st, ev) {
            (CheckoutState::Paying, CheckoutEvent::PaymentInserted { id }) => match plan.booking {
                Some(b) => r == (
                    CheckoutState::Booking { payment: id },
                    CheckoutAction::CompleteBooking { payment: id, booking: b },
                ),
                None => r == (CheckoutState::Linking { payment: id }, CheckoutAction::LinkAll { payment: id }),
            },
            (CheckoutState::Paying, CheckoutEvent::PaymentFailed) => r == (
                CheckoutState::Done,
                CheckoutAction::Finish(Err(EngineError::PaymentInsertFailed)),
            ),
            (CheckoutState::Booking { payment }, CheckoutEvent::BookingLinked { updated, linked }) => {
                if plan.booking is None {
                    r == (CheckoutState::Done, CheckoutAction::Finish(Err(EngineError::UnexpectedEvent)))
                } else if updated > 0 && linked {
                    r == (CheckoutState::Linking { payment }, CheckoutAction::LinkAll { payment })
                } else {
                    r == (
                        CheckoutState::Done,
                        CheckoutAction::Finish(
                            Err(EngineError::ConstraintError { id: plan.booking->0 }),
                        ),
                    )
                }
            },
            (
                CheckoutState::Linking { payment },
                CheckoutEvent::LinksDone { services_ok, discounts_ok, charges_ok },
            ) => if services_ok@.len() != plan.services@.len() || discounts_ok@.len()
                != plan.discounts@.len() || charges_ok@.len() != plan.charges {
                r == (CheckoutState::Done, CheckoutAction::Finish(Err(EngineError::UnexpectedEvent)))
            } else if fan_out_refusals(plan, services_ok@, discounts_ok@, charges_ok@).len() == 0 {
                r == (CheckoutState::Refreshing { payment }, CheckoutAction::Refresh)
            } else {
                &&& r.0 == CheckoutState::Done
                &&& r.1 matches CheckoutAction::Finish(
                    Err(EngineError::PartialLinkFailure { failed }),
                )
                &&& failed@ == fan_out_refusals(plan, services_ok@, discounts_ok@, charges_ok@)
            },
            (CheckoutState::Refreshing { payment }, CheckoutEvent::Refreshed { ok }) => if ok {
                r == (CheckoutState::Done, CheckoutAction::Finish(Ok(payment)))
            } else {
                r == (CheckoutState::Done, CheckoutAction::Finish(Err(EngineError::RefreshFailure)))
            },
            _ => r == (CheckoutState::Done, CheckoutAction::Finish(Err(EngineError::UnexpectedEvent))),
        },
{
    match (st, ev) {
        (CheckoutState::Paying, CheckoutEvent::PaymentInserted { id }) => match plan.booking {
            Some(b) => (
                CheckoutState::Booking { payment: id },
                CheckoutAction::CompleteBooking { payment: id, booking: b },
            ),
            None => (CheckoutState::Linking { payment: id }, CheckoutAction::LinkAll { payment: id }),
        },
        (CheckoutState::Paying, CheckoutEvent::PaymentFailed) => (
            CheckoutState::Done,
            CheckoutAction::Finish(Err(EngineError::PaymentInsertFailed)),
        ),
        (CheckoutState::Booking { payment }, CheckoutEvent::BookingLinked { updated, linked }) => {
            match plan.booking {
                None => (CheckoutState::Done, CheckoutAction::Finish(Err(EngineError::UnexpectedEvent))),
                Some(b) => {
                    if updated > 0 && linked {
                        (CheckoutState::Linking { payment: *payment }, CheckoutAction::LinkAll { payment: *payment })
                    } else {
                        (
                            CheckoutState::Done,
                            CheckoutAction::Finish(Err(EngineError::ConstraintError { id: b })),
                        )
                    }
                },
            }
        },
        (
            CheckoutState::Linking { payment },
            CheckoutEvent::LinksDone { services_ok, discounts_ok, charges_ok },
        ) => {
            if services_ok.len() != plan.services.len() || discounts_ok.len() != plan.discounts.len()
                || charges_ok.len() != plan.charges {
                return (CheckoutState::Done, CheckoutAction::Finish(Err(EngineError::UnexpectedEvent)));
            }
            let mut failed = collect_refusals(&plan.services, &services_ok, LinkType::Services);
            let mut more = collect_refusals(&plan.discounts, &discounts_ok, LinkType::Discounts);
            failed.append(&mut more);
            let mut charges = failed_charges(&charges_ok);
            failed.append(&mut charges);
            if failed.len() == 0 {
                (CheckoutState::Refreshing { payment: *payment }, CheckoutAction::Refresh)
            } else {
                (
                    CheckoutState::Done,
                    CheckoutAction::Finish(Err(EngineError::PartialLinkFailure { failed })),
                )
            }
        },
        (CheckoutState::Refreshing { payment }, CheckoutEvent::Refreshed { ok }) => {
            if ok {
                (CheckoutState::Done, CheckoutAction::Finish(Ok(*payment)))
            } else {
                (CheckoutState::Done, CheckoutAction::Finish(Err(EngineError::RefreshFailure)))
            }
        },
        _ => (CheckoutState::Done, CheckoutAction::Finish(Err(EngineError::UnexpectedEvent))),
    }
}

} // verus!
