use zero2prod::domain::{SubscriberEmail, SubscriberName};
use zero2prod::store::{StoreError, SubscriptionStatus, SubscriptionStore};

fn name(s: &str) -> SubscriberName {
    SubscriberName::parse(s.to_string()).unwrap()
}

fn email(s: &str) -> SubscriberEmail {
    SubscriberEmail::parse(s.to_string()).unwrap()
}

#[test]
fn uncommitted_writes_are_not_visible() {
    let store = SubscriptionStore::new();
    let mut tx = store.begin();
    assert_eq!(store.add_subscriber(&mut tx, 7, &name("ann"), &email("ann@example.com"), 100), Ok(()));
    assert_eq!(store.add_token(&mut tx, 7, "t".repeat(25)), Ok(()));
    drop(tx);
    assert!(store.subscriber_list().is_empty());
    assert_eq!(store.lookup_subscriber_id_by_token(&"t".repeat(25)), None);
}

#[test]
fn commit_applies_both_writes() {
    let mut store = SubscriptionStore::new();
    let mut tx = store.begin();
    assert_eq!(store.add_subscriber(&mut tx, 7, &name("ann"), &email("ann@example.com"), 100), Ok(()));
    assert_eq!(store.add_token(&mut tx, 7, "t".repeat(25)), Ok(()));
    assert_eq!(store.commit(tx), Ok(()));
    let row = &store.subscriber_list()[0];
    assert_eq!((row.id, row.subscribed_at, row.status), (7, 100, SubscriptionStatus::PendingConfirmation));
    assert_eq!(store.lookup_subscriber_id_by_token(&"t".repeat(25)), Some(7));
}

#[test]
fn constraint_violations_are_refused() {
    let mut store = SubscriptionStore::new();
    let mut tx = store.begin();
    assert_eq!(store.add_subscriber(&mut tx, 1, &name("ann"), &email("ann@example.com"), 0), Ok(()));
    assert_eq!(
        store.add_subscriber(&mut tx, 1, &name("bob"), &email("bob@example.com"), 0),
        Err(StoreError::DuplicateSubscriber)
    );
    assert_eq!(store.add_token(&mut tx, 2, "x".to_string()), Err(StoreError::UnknownSubscriber));
    assert_eq!(store.add_token(&mut tx, 1, "x".to_string()), Ok(()));
    assert_eq!(store.add_token(&mut tx, 1, "x".to_string()), Err(StoreError::DuplicateToken));
    assert_eq!(store.commit(tx), Ok(()));
    assert_eq!(store.subscriber_list().len(), 1);
    assert_eq!(store.token_list().len(), 1);
}

#[test]
fn a_conflicting_commit_writes_nothing() {
    let mut store = SubscriptionStore::new();
    let mut first = store.begin();
    let mut second = store.begin();
    assert_eq!(store.add_subscriber(&mut first, 1, &name("ann"), &email("ann@example.com"), 0), Ok(()));
    assert_eq!(store.add_subscriber(&mut second, 2, &name("bob"), &email("bob@example.com"), 0), Ok(()));
    assert_eq!(store.add_token(&mut first, 1, "same".to_string()), Ok(()));
    assert_eq!(store.add_token(&mut second, 2, "same".to_string()), Ok(()));
    assert_eq!(store.commit(first), Ok(()));
    assert_eq!(store.commit(second), Err(StoreError::DuplicateToken));
    assert_eq!(store.subscriber_list().len(), 1);
    assert_eq!(store.subscriber_list()[0].id, 1);
}

#[test]
fn mark_confirmed_is_idempotent() {
    let mut store = SubscriptionStore::new();
    let mut tx = store.begin();
    assert_eq!(store.add_subscriber(&mut tx, 1, &name("ann"), &email("ann@example.com"), 0), Ok(()));
    assert_eq!(store.commit(tx), Ok(()));
    store.mark_confirmed(1);
    store.mark_confirmed(1);
    store.mark_confirmed(9);
    assert_eq!(store.subscriber_list()[0].status, SubscriptionStatus::Confirmed);
    assert_eq!(store.subscriber_list().len(), 1);
}
