use moosy::link::LinkType;
use moosy::store::{Association, AssociationStore, Registry, StoreError, ToggleOutcome};

fn registry(ids: &[u128]) -> Registry {
    let mut r = Registry::new();
    for id in ids {
        r.add(*id);
    }
    r
}

#[test]
fn link_requires_both_sides() {
    let known = registry(&[1, 2]);
    let mut s = AssociationStore::new();
    assert_eq!(s.link(&known, 1, 3, LinkType::Services), Err(StoreError::ConstraintError { id: 3 }));
    assert_eq!(s.link(&known, 4, 3, LinkType::Services), Err(StoreError::ConstraintError { id: 4 }));
    assert_eq!(s.len(), 0);
    assert_eq!(s.link(&known, 1, 2, LinkType::Services), Ok(()));
    assert!(s.is_linked(1, 2, LinkType::Services));
    assert!(!s.is_linked(1, 2, LinkType::Discounts));
}

#[test]
fn unlink_absent_row_changes_nothing() {
    let known = registry(&[1, 2, 3]);
    let mut s = AssociationStore::new();
    s.link(&known, 1, 2, LinkType::Services).unwrap();
    assert_eq!(s.unlink(1, 3, LinkType::Services), Ok(()));
    assert_eq!(s.unlink(1, 2, LinkType::Discounts), Ok(()));
    assert_eq!(s.rows(), vec![Association { owner: 1, linked: 2, kind: LinkType::Services }]);
}

#[test]
fn unlink_removes_every_copy() {
    let known = registry(&[1, 2, 3]);
    let mut s = AssociationStore::new();
    s.link(&known, 1, 2, LinkType::Services).unwrap();
    s.link(&known, 1, 3, LinkType::Services).unwrap();
    s.link(&known, 1, 2, LinkType::Services).unwrap();
    s.unlink(1, 2, LinkType::Services).unwrap();
    assert_eq!(s.rows(), vec![Association { owner: 1, linked: 3, kind: LinkType::Services }]);
}

#[test]
fn toggle_twice_returns_to_start() {
    let known = registry(&[7, 8]);
    let mut s = AssociationStore::new();
    assert_eq!(s.toggle(&known, 7, 8, LinkType::Company), Ok(ToggleOutcome::Linked));
    assert!(s.is_linked(7, 8, LinkType::Company));
    assert_eq!(s.toggle(&known, 7, 8, LinkType::Company), Ok(ToggleOutcome::Unlinked));
    assert!(!s.is_linked(7, 8, LinkType::Company));
    assert_eq!(s.len(), 0);
}

#[test]
fn count_owned_counts_by_owner() {
    let known = registry(&[1, 2, 3]);
    let mut s = AssociationStore::new();
    s.link(&known, 1, 2, LinkType::Services).unwrap();
    s.link(&known, 3, 2, LinkType::Services).unwrap();
    s.link(&known, 1, 3, LinkType::Discounts).unwrap();
    assert_eq!(s.count_owned(1), 2);
    assert_eq!(s.count_owned(3), 1);
    assert_eq!(s.count_owned(2), 0);
}

#[test]
fn registry_lookup_and_truncate() {
    let mut r = registry(&[5, 6, 7]);
    assert!(r.contains(6));
    r.truncate(1);
    assert_eq!(r.len(), 1);
    assert!(!r.contains(6));
    assert!(r.contains(5));
}

#[test]
fn tags_read_back() {
    for t in [LinkType::Booking, LinkType::Services, LinkType::Discounts, LinkType::Auxiliary, LinkType::Company] {
        assert_eq!(LinkType::from_tag(t.as_str()), Some(t));
    }
    assert_eq!(LinkType::Services.as_str(), "services");
    assert_eq!(LinkType::from_tag("service"), None);
    assert_eq!(LinkType::from_tag("Booking"), None);
    assert_eq!(LinkType::from_tag(""), None);
}
