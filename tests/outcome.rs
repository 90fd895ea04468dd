use moosy::credentials::{login_secret, password_hash};
use moosy::engine::{BookingStatus, Session};
use moosy::error::{EngineError, LinkFailure};
use moosy::link::LinkType;
use moosy::outcome::{authorize, collect_refusals, email_outcome, fan_out_outcome, reschedule_allowed, update_outcome, EmailOutcome};

#[test]
fn password_hash_is_hex_sha256() {
    assert_eq!(
        password_hash("password"),
        "5e884898da28047151d0e56f8dc6292773603d0d6aabbdd62a11ef721d1542d8"
    );
    assert_eq!(
        password_hash(""),
        "e3b0c44298fc1c149afbf4c8996fb92427ae41e4649b934ca495991b7852b855"
    );
}

#[test]
fn login_secret_hashes_only_typed_passwords() {
    assert_eq!(login_secret("abc", true), "abc");
    assert_eq!(
        login_secret("abc", false),
        "ba7816bf8f01cfea414140de5dae2223b00361a396177a9cb410ff61f20015ad"
    );
}

#[test]
fn authorize_needs_session() {
    assert_eq!(authorize(&None), Err(EngineError::Unauthorized));
    let s = Session { username: "u".to_string(), password: "p".to_string(), company: 42 };
    assert_eq!(authorize(&Some(s)), Ok(42));
}

#[test]
fn update_outcome_by_rows() {
    assert_eq!(update_outcome(1, 9), Ok(()));
    assert_eq!(update_outcome(0, 9), Err(EngineError::NotFound { id: 9 }));
}

#[test]
fn refusals_name_failed_items_only() {
    let failed = collect_refusals(&vec![1, 2, 3], &vec![true, false, true], LinkType::Services);
    assert_eq!(failed, vec![LinkFailure { kind: LinkType::Services, id: 2 }]);
    assert_eq!(
        fan_out_outcome(77, failed.clone()),
        Err(EngineError::PartialLinkFailure { failed })
    );
    assert_eq!(fan_out_outcome(77, vec![]), Ok(77));
}

#[test]
fn email_outcome_reports_reason() {
    assert!(matches!(email_outcome(true, None), EmailOutcome::Sent));
    match email_outcome(false, Some("quota".to_string())) {
        EmailOutcome::Failed { reason } => assert_eq!(reason, "quota"),
        EmailOutcome::Sent => panic!("expected a failure"),
    }
    match email_outcome(false, None) {
        EmailOutcome::Failed { reason } => assert_eq!(reason, "Unknown error"),
        EmailOutcome::Sent => panic!("expected a failure"),
    }
}

#[test]
fn reschedule_only_pending() {
    assert_eq!(reschedule_allowed(Some(BookingStatus::Pending), 3), Ok(()));
    assert_eq!(reschedule_allowed(Some(BookingStatus::Completed), 3), Err(EngineError::InvalidStatus { id: 3 }));
    assert_eq!(reschedule_allowed(Some(BookingStatus::Cancelled), 3), Err(EngineError::InvalidStatus { id: 3 }));
    assert_eq!(reschedule_allowed(None, 3), Err(EngineError::NotFound { id: 3 }));
}

#[test]
fn hashed_secret_has_64_digits() {
    assert_eq!(login_secret("anything at all", false).len(), 64);
}
