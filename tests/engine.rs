use moosy::engine::{BookingStatus, CheckoutRequest, Engine, Session};
use moosy::error::{EngineError, LinkFailure};
use moosy::link::LinkType;
use moosy::model::Auxiliary;
use moosy::store::{Association, ToggleOutcome};

const COMPANY: u128 = 100;
const CUSTOMER: u128 = 101;
const STAFF: u128 = 102;
const SVC1: u128 = 103;
const SVC2: u128 = 104;
const SVC3: u128 = 105;
const CURRENCY: u128 = 106;
const CAMPAIGN: u128 = 107;
const DISCOUNT: u128 = 108;
const UNKNOWN: u128 = 999;

fn signed_in() -> Engine {
    let mut e = Engine::new();
    for id in [COMPANY, CUSTOMER, STAFF, SVC1, SVC2, SVC3, CURRENCY, CAMPAIGN, DISCOUNT] {
        e.register_entity(id);
    }
    e.open_session(Session {
        username: "owner".to_string(),
        password: "hash".to_string(),
        company: COMPANY,
    });
    e
}

fn request(services: Vec<u128>, discounts: Vec<u128>, auxiliary: Vec<Auxiliary>, amount: u64) -> CheckoutRequest {
    CheckoutRequest {
        payer: Some(CUSTOMER),
        services,
        discounts,
        auxiliary,
        currency: CURRENCY,
        method: "card".to_string(),
        amount,
        status: "paid".to_string(),
    }
}

fn late_fee() -> Auxiliary {
    Auxiliary {
        name: Some("late fee".to_string()),
        value: Some(1000),
        description: None,
        kind: None,
        increment: Some(true),
        decrement: Some(false),
    }
}

#[test]
fn create_booking_links_each_service() {
    let mut e = signed_in();
    let id = e.create_booking(CUSTOMER, 1000, 4600, STAFF, &vec![SVC1, SVC2]).unwrap();
    assert_eq!(e.bookings.len(), 1);
    assert_eq!(e.bookings[0].id, id);
    assert_eq!(e.bookings[0].status, BookingStatus::Pending);
    assert_eq!(e.booking_links.count_owned(id), 2);
    let rows = e.booking_links.rows();
    assert_eq!(rows, vec![
        Association { owner: id, linked: SVC1, kind: LinkType::Services },
        Association { owner: id, linked: SVC2, kind: LinkType::Services },
    ]);
    let snap = e.current_snapshot().unwrap();
    assert_eq!(snap.bookings.len(), 1);
    assert_eq!(snap.bookings[0].id, id);
}

#[test]
fn create_booking_rolls_back_on_unknown_service() {
    let mut e = signed_in();
    let next = e.next_id;
    let r = e.create_booking(CUSTOMER, 1000, 4600, STAFF, &vec![SVC1, UNKNOWN, SVC2]);
    assert_eq!(r, Err(EngineError::TransactionAborted { id: Some(UNKNOWN) }));
    assert_eq!(e.bookings.len(), 0);
    assert_eq!(e.booking_links.len(), 0);
    assert_eq!(e.next_id, next);
    assert_eq!(e.current_snapshot().unwrap().bookings.len(), 0);
}

#[test]
fn create_booking_rolls_back_on_unknown_customer() {
    let mut e = signed_in();
    let r = e.create_booking(UNKNOWN, 1000, 4600, STAFF, &vec![SVC1]);
    assert_eq!(r, Err(EngineError::TransactionAborted { id: Some(UNKNOWN) }));
    assert_eq!(e.bookings.len(), 0);
    assert_eq!(e.booking_links.len(), 0);
}

#[test]
fn create_booking_needs_a_session() {
    let mut e = Engine::new();
    e.register_entity(CUSTOMER);
    let r = e.create_booking(CUSTOMER, 0, 1, CUSTOMER, &vec![]);
    assert_eq!(r, Err(EngineError::Unauthorized));
    assert_eq!(e.bookings.len(), 0);
}

#[test]
fn checkout_records_payment_booking_and_charge() {
    let mut e = signed_in();
    let b1 = e.create_booking(CUSTOMER, 1000, 4600, STAFF, &vec![SVC1]).unwrap();
    let pid = e
        .checkout_booking(Some(b1), request(vec![SVC1], vec![], vec![late_fee()], 5000))
        .unwrap();
    assert_eq!(e.payments.len(), 1);
    assert_eq!(e.payments[0].id, pid);
    assert_eq!(e.payments[0].amount, 5000);
    assert_eq!(e.payments[0].company, COMPANY);
    assert_eq!(e.bookings[0].status, BookingStatus::Completed);
    assert_eq!(e.auxiliaries.len(), 1);
    assert_eq!(e.auxiliaries[0].charge.value, Some(1000));
    let aux_id = e.auxiliaries[0].id;
    let rows = e.payment_links.rows();
    assert_eq!(rows, vec![
        Association { owner: pid, linked: b1, kind: LinkType::Booking },
        Association { owner: pid, linked: SVC1, kind: LinkType::Services },
        Association { owner: pid, linked: aux_id, kind: LinkType::Auxiliary },
    ]);
    let service_and_charge = rows.iter().filter(|a| a.kind != LinkType::Booking).count();
    assert_eq!(service_and_charge, 2);
    assert_eq!(e.current_snapshot().unwrap().bookings[0].status, BookingStatus::Completed);
}

#[test]
fn checkout_names_only_the_refused_service() {
    let mut e = signed_in();
    let r = e.checkout_walkin(request(vec![SVC1, UNKNOWN, SVC3], vec![], vec![], 2500));
    assert_eq!(
        r,
        Err(EngineError::PartialLinkFailure {
            failed: vec![LinkFailure { kind: LinkType::Services, id: UNKNOWN }],
        })
    );
    let pid = e.payments[0].id;
    assert_eq!(e.payment_links.rows(), vec![
        Association { owner: pid, linked: SVC1, kind: LinkType::Services },
        Association { owner: pid, linked: SVC3, kind: LinkType::Services },
    ]);
}

#[test]
fn checkout_names_every_refused_item() {
    let mut e = signed_in();
    let r = e.checkout_walkin(request(vec![UNKNOWN], vec![DISCOUNT, UNKNOWN + 1], vec![], 100));
    assert_eq!(
        r,
        Err(EngineError::PartialLinkFailure {
            failed: vec![
                LinkFailure { kind: LinkType::Services, id: UNKNOWN },
                LinkFailure { kind: LinkType::Discounts, id: UNKNOWN + 1 },
            ],
        })
    );
    assert_eq!(e.payment_links.len(), 1);
}

#[test]
fn checkout_rejects_zero_amount() {
    let mut e = signed_in();
    let r = e.checkout_walkin(request(vec![SVC1], vec![], vec![], 0));
    assert_eq!(r, Err(EngineError::PaymentInsertFailed));
    assert_eq!(e.payments.len(), 0);
    assert_eq!(e.payment_links.len(), 0);
}

#[test]
fn checkout_rejects_unknown_currency() {
    let mut e = signed_in();
    let mut q = request(vec![], vec![], vec![], 10);
    q.currency = UNKNOWN;
    assert_eq!(e.checkout_walkin(q), Err(EngineError::PaymentInsertFailed));
    assert_eq!(e.payments.len(), 0);
}

#[test]
fn checkout_unknown_booking_keeps_payment() {
    let mut e = signed_in();
    let r = e.checkout_booking(Some(UNKNOWN), request(vec![SVC1], vec![], vec![], 10));
    assert_eq!(r, Err(EngineError::ConstraintError { id: UNKNOWN }));
    assert_eq!(e.payments.len(), 1);
    assert_eq!(e.payment_links.len(), 0);
}

#[test]
fn checkout_entity_that_is_no_booking_is_refused() {
    let mut e = signed_in();
    let r = e.checkout_booking(Some(SVC2), request(vec![SVC1], vec![], vec![], 10));
    assert_eq!(r, Err(EngineError::ConstraintError { id: SVC2 }));
    assert_eq!(e.payments.len(), 1);
    assert_eq!(e.payment_links.len(), 0);
}

#[test]
fn register_entity_moves_next_id_past_it() {
    let mut e = Engine::new();
    e.register_entity(500);
    assert_eq!(e.next_id, 501);
    e.register_entity(3);
    assert_eq!(e.next_id, 501);
}

#[test]
fn checkout_needs_a_session() {
    let mut e = Engine::new();
    let r = e.checkout_walkin(request(vec![], vec![], vec![], 10));
    assert_eq!(r, Err(EngineError::Unauthorized));
}

#[test]
fn walkin_without_payer_links_discount() {
    let mut e = signed_in();
    let mut q = request(vec![], vec![DISCOUNT], vec![], 700);
    q.payer = None;
    let pid = e.checkout_walkin(q).unwrap();
    assert_eq!(e.payments[0].payer, None);
    assert_eq!(e.payment_links.rows(), vec![Association {
        owner: pid,
        linked: DISCOUNT,
        kind: LinkType::Discounts
    }]);
}

#[test]
fn toggle_campaign_links_then_unlinks() {
    let mut e = signed_in();
    assert_eq!(e.toggle_campaign_link(CAMPAIGN), Ok(ToggleOutcome::Linked));
    assert!(e.campaign_links.is_linked(CAMPAIGN, COMPANY, LinkType::Company));
    assert_eq!(e.current_snapshot().unwrap().campaign_links.len(), 1);
    assert_eq!(e.toggle_campaign_link(CAMPAIGN), Ok(ToggleOutcome::Unlinked));
    assert!(!e.campaign_links.is_linked(CAMPAIGN, COMPANY, LinkType::Company));
    assert_eq!(e.current_snapshot().unwrap().campaign_links.len(), 0);
}

#[test]
fn toggle_unknown_campaign_is_refused() {
    let mut e = signed_in();
    assert_eq!(e.toggle_campaign_link(UNKNOWN), Err(EngineError::ConstraintError { id: UNKNOWN }));
    assert_eq!(e.campaign_links.len(), 0);
}

#[test]
fn cancelled_booking_shows_in_snapshot() {
    let mut e = signed_in();
    let b = e.create_booking(CUSTOMER, 1000, 4600, STAFF, &vec![]).unwrap();
    e.cancel_booking(b).unwrap();
    assert_eq!(e.bookings[0].status, BookingStatus::Cancelled);
    assert_eq!(e.current_snapshot().unwrap().bookings[0].status, BookingStatus::Cancelled);
}

#[test]
fn cancel_unknown_booking_is_not_found() {
    let mut e = signed_in();
    assert_eq!(e.cancel_booking(UNKNOWN), Err(EngineError::NotFound { id: UNKNOWN }));
}

#[test]
fn reschedule_moves_pending_booking() {
    let mut e = signed_in();
    let b = e.create_booking(CUSTOMER, 1000, 4600, STAFF, &vec![]).unwrap();
    e.reschedule_booking(b, 8000, 9000).unwrap();
    assert_eq!((e.bookings[0].start, e.bookings[0].end), (8000, 9000));
    let snap = e.current_snapshot().unwrap();
    assert_eq!((snap.bookings[0].start, snap.bookings[0].end), (8000, 9000));
}

#[test]
fn reschedule_refuses_cancelled_booking() {
    let mut e = signed_in();
    let b = e.create_booking(CUSTOMER, 1000, 4600, STAFF, &vec![]).unwrap();
    e.cancel_booking(b).unwrap();
    assert_eq!(e.reschedule_booking(b, 8000, 9000), Err(EngineError::InvalidStatus { id: b }));
    assert_eq!(e.bookings[0].start, 1000);
}

#[test]
fn snapshot_missing_without_session() {
    let mut e = signed_in();
    e.close_session();
    assert!(matches!(e.current_snapshot(), Err(EngineError::Unauthorized)));
    assert_eq!(e.cancel_booking(1), Err(EngineError::Unauthorized));
}

#[test]
fn generated_ids_are_new() {
    let mut e = signed_in();
    let b = e.create_booking(CUSTOMER, 0, 1, STAFF, &vec![]).unwrap();
    assert!(![COMPANY, CUSTOMER, STAFF, SVC1, SVC2, SVC3, CURRENCY, CAMPAIGN, DISCOUNT].contains(&b));
    let pid = e.checkout_walkin(request(vec![], vec![], vec![late_fee(), late_fee()], 1)).unwrap();
    assert_ne!(pid, b);
    assert_eq!(e.auxiliaries[0].id, pid + 1);
    assert_eq!(e.auxiliaries[1].id, pid + 2);
}
