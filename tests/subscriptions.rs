use newsletter::confirmation::{confirm, confirmation_status_code, ConfirmationError};
use newsletter::domain::{is_valid_email, is_valid_name};
use newsletter::store::{StoreError, SubscriberStore, SubscriptionStatus};
use newsletter::subscriptions::{
    build_confirmation_link, subscribe, subscription_status_code, FormData, SubscriptionError,
};

const BASE_URL: &str = "https://news.example";

fn form(email: &str, name: &str) -> FormData {
    FormData { email: email.to_string(), name: name.to_string() }
}

#[test]
fn subscribe_stores_one_pending_subscriber_and_one_email() {
    let mut store = SubscriberStore::new();
    let mail = subscribe(&mut store, form("ursula_le_guin@gmail.com", "le guin"), "tok".to_string(), BASE_URL)
        .unwrap();
    assert_eq!(store.len(), 1);
    let s = store.get(0).unwrap();
    assert_eq!(s.email, "ursula_le_guin@gmail.com");
    assert_eq!(s.name, "le guin");
    assert_eq!(s.status, SubscriptionStatus::PendingConfirmation);
    assert_eq!(mail.subject, "Welcome!");
    assert_eq!(mail.recipient, "ursula_le_guin@gmail.com");
    assert_eq!(
        mail.text_body,
        "Welcome to our newsletter!\nVisit https://news.example/subscriptions/confirm?subscription_token=tok to confirm your subscription."
    );
    assert_eq!(
        mail.html_body,
        "Welcome to our newsletter!<br />Click <a href=\"https://news.example/subscriptions/confirm?subscription_token=tok\">here</a> to confirm your subscription."
    );
}

#[test]
fn confirmation_link_has_the_documented_shape() {
    assert_eq!(
        build_confirmation_link("http://localhost", "xyz"),
        "http://localhost/subscriptions/confirm?subscription_token=xyz"
    );
}

#[test]
fn invalid_input_is_a_validation_error() {
    let mut store = SubscriberStore::new();
    for (email, name) in [
        ("", "name"),
        ("not-an-email", "name"),
        ("@domain.com", "name"),
        ("user@", "name"),
        ("a@b@c.com", "name"),
        ("with space@x.com", "name"),
        ("ok@x.com", ""),
        ("ok@x.com", "bad\u{7}name"),
        ("ok@x.com", "\u{85}"),
        ("ok@x.com", "tab\u{9f}"),
        ("ok@x\u{85}.com", "name"),
    ] {
        let r = subscribe(&mut store, form(email, name), "t".to_string(), BASE_URL);
        assert!(matches!(r, Err(SubscriptionError::ValidationError)), "{:?} {:?}", email, name);
    }
    assert_eq!(store.len(), 0);
    assert_eq!(subscription_status_code(&Err(SubscriptionError::ValidationError)), 400);
}

#[test]
fn validators_accept_ordinary_input() {
    assert!(is_valid_email("ursula_le_guin@gmail.com"));
    assert!(is_valid_email("a@b"));
    assert!(!is_valid_email("a@"));
    assert!(is_valid_name("le guin"));
    assert!(is_valid_name("Ursula K. Le Guin"));
    assert!(!is_valid_name("line\nbreak"));
    assert!(!is_valid_name("\u{85}"));
    assert!(!is_valid_name("a\u{80}b"));
    assert!(is_valid_name("\u{a0}Ursula"));
    assert!(is_valid_name("Ursula\u{7e}"));
}

#[test]
fn subscribing_again_reissues_a_token_for_the_same_subscriber() {
    let mut store = SubscriberStore::new();
    subscribe(&mut store, form("a@b.com", "A"), "first".to_string(), BASE_URL).unwrap();
    subscribe(&mut store, form("a@b.com", "A"), "second".to_string(), BASE_URL).unwrap();
    assert_eq!(store.len(), 1);
    assert_eq!(store.find_by_token("first"), Some(0));
    assert_eq!(store.find_by_token("second"), Some(0));
    confirm(&mut store, "second").unwrap();
    assert_eq!(store.get(0).unwrap().status, SubscriptionStatus::Confirmed);
    confirm(&mut store, "first").unwrap();
    assert_eq!(store.get(0).unwrap().status, SubscriptionStatus::Confirmed);
}

#[test]
fn a_reused_token_is_a_storage_error() {
    let mut store = SubscriberStore::new();
    subscribe(&mut store, form("a@b.com", "A"), "same".to_string(), BASE_URL).unwrap();
    let r = subscribe(&mut store, form("c@d.com", "C"), "same".to_string(), BASE_URL);
    assert!(matches!(r, Err(SubscriptionError::StorageError(StoreError::DuplicateToken))));
    assert_eq!(store.len(), 1);
    assert_eq!(subscription_status_code(&Err(SubscriptionError::StorageError(StoreError::DuplicateToken))), 500);
    assert_eq!(subscription_status_code(&Ok(())), 200);
}

#[test]
fn confirm_is_idempotent() {
    let mut store = SubscriberStore::new();
    subscribe(&mut store, form("a@b.com", "A"), "tok".to_string(), BASE_URL).unwrap();
    assert_eq!(confirm(&mut store, "tok"), Ok(()));
    assert_eq!(confirm(&mut store, "tok"), Ok(()));
    assert_eq!(store.get(0).unwrap().status, SubscriptionStatus::Confirmed);
    assert_eq!(store.len(), 1);
}

#[test]
fn unknown_token_is_rejected_without_change() {
    let mut store = SubscriberStore::new();
    subscribe(&mut store, form("a@b.com", "A"), "tok".to_string(), BASE_URL).unwrap();
    let r = confirm(&mut store, "not-a-real-token");
    assert_eq!(r, Err(ConfirmationError::TokenNotFound));
    assert_eq!(store.get(0).unwrap().status, SubscriptionStatus::PendingConfirmation);
    assert_eq!(confirmation_status_code(&r), 400);
    assert_eq!(confirmation_status_code(&Ok(())), 200);
}

#[test]
fn two_confirmations_of_one_token_both_succeed() {
    let mut store = SubscriberStore::new();
    subscribe(&mut store, form("a@b.com", "A"), "race".to_string(), BASE_URL).unwrap();
    let first = confirm(&mut store, "race");
    let second = confirm(&mut store, "race");
    assert!(first.is_ok() && second.is_ok());
    assert_eq!(store.list_confirmed(), vec!["a@b.com".to_string()]);
    assert!(!store.mark_confirmed(0));
}
