use moosy::error::{EngineError, LinkFailure};
use moosy::link::LinkType;
use moosy::protocol::{
    booking_tx_next, booking_tx_start, checkout_next, checkout_start, toggle_next, toggle_start, BookingRequest,
    CheckoutAction, CheckoutEvent, CheckoutPlan, CheckoutState, ToggleAction, ToggleEvent, ToggleState, TxAction,
    TxEvent, TxState,
};
use moosy::store::ToggleOutcome;

fn run_toggle(exists: bool, write_ok: bool, refresh_ok: bool) -> Result<ToggleOutcome, EngineError> {
    let (mut st, mut action) = toggle_start(7);
    assert!(matches!(action, ToggleAction::Check));
    loop {
        let ev = match action {
            ToggleAction::Check => ToggleEvent::Checked { exists },
            ToggleAction::Delete => {
                assert!(exists);
                ToggleEvent::Written { ok: write_ok }
            }
            ToggleAction::Insert => {
                assert!(!exists);
                ToggleEvent::Written { ok: write_ok }
            }
            ToggleAction::Refresh => ToggleEvent::Refreshed { ok: refresh_ok },
            ToggleAction::Finish(r) => return r,
        };
        (st, action) = toggle_next(&st, ev);
    }
}

#[test]
fn toggle_absent_link_inserts() {
    assert_eq!(run_toggle(false, true, true), Ok(ToggleOutcome::Linked));
}

#[test]
fn toggle_present_link_deletes() {
    assert_eq!(run_toggle(true, true, true), Ok(ToggleOutcome::Unlinked));
}

#[test]
fn toggle_failed_write_names_campaign() {
    assert_eq!(run_toggle(false, false, true), Err(EngineError::ConstraintError { id: 7 }));
}

#[test]
fn toggle_failed_refresh_is_reported() {
    assert_eq!(run_toggle(true, true, false), Err(EngineError::RefreshFailure));
}

#[test]
fn toggle_out_of_order_event() {
    let (_, a) = toggle_next(&ToggleState::Done, ToggleEvent::Refreshed { ok: true });
    assert!(matches!(a, ToggleAction::Finish(Err(EngineError::UnexpectedEvent))));
}

/// Runs a booking creation where the insert at position `fail_at` fails
/// (0 is the booking row, k is the k-th service); returns the result and
/// the actions performed.
fn run_tx(services: Vec<u128>, fail_at: Option<usize>) -> (Result<u128, EngineError>, Vec<String>) {
    let req = BookingRequest { customer: 1, staff: 2, services };
    let (mut st, mut action) = booking_tx_start();
    let mut log = Vec::new();
    let mut writes = 0usize;
    loop {
        let ev = match action {
            TxAction::InsertBooking => {
                log.push("insert".to_string());
                writes += 1;
                TxEvent::BookingInserted { id: if fail_at == Some(0) { None } else { Some(50) } }
            }
            TxAction::LinkService { booking, service } => {
                assert_eq!(booking, 50);
                log.push(format!("link {}", service));
                writes += 1;
                TxEvent::ServiceLinked { ok: fail_at != Some(writes - 1) }
            }
            TxAction::Rollback => {
                log.push("rollback".to_string());
                TxEvent::RolledBack
            }
            TxAction::Commit => {
                log.push("commit".to_string());
                TxEvent::Committed { ok: true }
            }
            TxAction::Refresh => {
                log.push("refresh".to_string());
                TxEvent::Refreshed { ok: true }
            }
            TxAction::Finish(r) => return (r, log),
        };
        (st, action) = booking_tx_next(&req, &st, ev);
    }
}

#[test]
fn booking_tx_commits_after_last_service() {
    let (r, log) = run_tx(vec![10, 11], None);
    assert_eq!(r, Ok(50));
    assert_eq!(log, vec!["insert", "link 10", "link 11", "commit", "refresh"]);
}

#[test]
fn booking_tx_without_services_commits() {
    let (r, log) = run_tx(vec![], None);
    assert_eq!(r, Ok(50));
    assert_eq!(log, vec!["insert", "commit", "refresh"]);
}

#[test]
fn booking_tx_rolls_back_on_failed_service() {
    let (r, log) = run_tx(vec![10, 11, 12], Some(2));
    assert_eq!(r, Err(EngineError::TransactionAborted { id: Some(11) }));
    assert_eq!(log, vec!["insert", "link 10", "link 11", "rollback"]);
}

#[test]
fn booking_tx_rolls_back_on_failed_booking() {
    let (r, log) = run_tx(vec![10], Some(0));
    assert_eq!(r, Err(EngineError::TransactionAborted { id: None }));
    assert_eq!(log, vec!["insert", "rollback"]);
}

#[test]
fn booking_tx_failed_commit_is_aborted() {
    let req = BookingRequest { customer: 1, staff: 2, services: vec![] };
    let (_, a) = booking_tx_next(&req, &TxState::Committing { booking: 5 }, TxEvent::Committed { ok: false });
    assert!(matches!(a, TxAction::Finish(Err(EngineError::TransactionAborted { id: None }))));
}

fn plan(booking: Option<u128>, services: Vec<u128>, charges: usize, amount: i64) -> CheckoutPlan {
    CheckoutPlan { booking, services, discounts: vec![], charges, amount }
}

#[test]
fn checkout_rejects_non_positive_amount() {
    let (_, a) = checkout_start(&plan(None, vec![], 0, 0));
    assert!(matches!(a, CheckoutAction::Finish(Err(EngineError::PaymentInsertFailed))));
    let (st, a) = checkout_start(&plan(None, vec![], 0, 5000));
    assert!(matches!(st, CheckoutState::Paying));
    assert!(matches!(a, CheckoutAction::InsertPayment));
}

#[test]
fn checkout_failed_payment_ends_it() {
    let p = plan(None, vec![], 0, 10);
    let (_, a) = checkout_next(&p, &CheckoutState::Paying, CheckoutEvent::PaymentFailed);
    assert!(matches!(a, CheckoutAction::Finish(Err(EngineError::PaymentInsertFailed))));
}

#[test]
fn checkout_with_booking_completes_it_first() {
    let p = plan(Some(9), vec![3], 1, 5000);
    let (st, a) = checkout_next(&p, &CheckoutState::Paying, CheckoutEvent::PaymentInserted { id: 70 });
    assert!(matches!(a, CheckoutAction::CompleteBooking { payment: 70, booking: 9 }));
    let (st, a) = checkout_next(&p, &st, CheckoutEvent::BookingLinked { updated: 1, linked: true });
    assert!(matches!(a, CheckoutAction::LinkAll { payment: 70 }));
    let (st, a) = checkout_next(
        &p,
        &st,
        CheckoutEvent::LinksDone { services_ok: vec![true], discounts_ok: vec![], charges_ok: vec![true] },
    );
    assert!(matches!(a, CheckoutAction::Refresh));
    let (_, a) = checkout_next(&p, &st, CheckoutEvent::Refreshed { ok: true });
    assert!(matches!(a, CheckoutAction::Finish(Ok(70))));
}

#[test]
fn checkout_missing_booking_is_named() {
    let p = plan(Some(9), vec![], 0, 5000);
    let (_, a) = checkout_next(
        &p,
        &CheckoutState::Booking { payment: 70 },
        CheckoutEvent::BookingLinked { updated: 0, linked: true },
    );
    assert!(matches!(a, CheckoutAction::Finish(Err(EngineError::ConstraintError { id: 9 }))));
}

#[test]
fn checkout_fan_out_names_second_service_only() {
    let p = plan(None, vec![1, 2, 3], 0, 5000);
    let (_, a) = checkout_next(
        &p,
        &CheckoutState::Linking { payment: 70 },
        CheckoutEvent::LinksDone { services_ok: vec![true, false, true], discounts_ok: vec![], charges_ok: vec![] },
    );
    match a {
        CheckoutAction::Finish(Err(EngineError::PartialLinkFailure { failed })) => {
            assert_eq!(failed, vec![LinkFailure { kind: LinkType::Services, id: 2 }]);
        }
        _ => panic!("expected a partial link failure"),
    }
}

#[test]
fn checkout_failed_charge_is_named_by_position() {
    let p = CheckoutPlan { booking: None, services: vec![], discounts: vec![4], charges: 2, amount: 1 };
    let (_, a) = checkout_next(
        &p,
        &CheckoutState::Linking { payment: 70 },
        CheckoutEvent::LinksDone { services_ok: vec![], discounts_ok: vec![false], charges_ok: vec![true, false] },
    );
    match a {
        CheckoutAction::Finish(Err(EngineError::PartialLinkFailure { failed })) => {
            assert_eq!(failed, vec![
                LinkFailure { kind: LinkType::Discounts, id: 4 },
                LinkFailure { kind: LinkType::Auxiliary, id: 1 },
            ]);
        }
        _ => panic!("expected a partial link failure"),
    }
}

#[test]
fn checkout_failed_refresh_is_reported() {
    let p = plan(None, vec![], 0, 1);
    let (_, a) = checkout_next(&p, &CheckoutState::Refreshing { payment: 70 }, CheckoutEvent::Refreshed { ok: false });
    assert!(matches!(a, CheckoutAction::Finish(Err(EngineError::RefreshFailure))));
}
