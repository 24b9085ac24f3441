use zero2prod::store::{SubscriptionStatus, SubscriptionStore};
use zero2prod::subscription_confirm::{confirm, confirm_status, ConfirmError, Parameters, TokenError};
use zero2prod::subscriptions::{subscribe, FormData, SUBSCRIPTION_TOKEN_LENGTH};

fn valid_string(len: usize) -> String {
    let alphabet: Vec<char> = "0123456789abcdefghijklmnopqrstuvwxyzABCDEFGHIJKLMNOPQRSTUVWXYZ".chars().collect();
    (0..len).map(|i| alphabet[(i * 7 + 3) % alphabet.len()]).collect()
}

fn invalid_string(len: usize) -> String {
    let alphabet: Vec<char> = "!\"#$%&'()*+,-./:;<=>?@".chars().collect();
    (0..len).map(|i| alphabet[(i * 5 + 1) % alphabet.len()]).collect()
}

fn registered_store() -> (SubscriptionStore, String) {
    let mut store = SubscriptionStore::new();
    let form = FormData {
        name: "le guin".to_string(),
        email: "ursula_le_guin@gmail.com".to_string(),
    };
    assert!(subscribe(&mut store, form, "http://127.0.0.1").is_ok());
    let token = store.token_list()[0].token.clone();
    (store, token)
}

#[test]
fn subcription_token_with_valid_length_and_charachters() {
    assert!(Parameters {
        subscription_token: valid_string(SUBSCRIPTION_TOKEN_LENGTH),
    }
    .validate()
    .is_ok());
}

#[test]
fn subcription_token_with_valid_charachters_and_wrong_length() {
    assert!(Parameters {
        subscription_token: valid_string(SUBSCRIPTION_TOKEN_LENGTH + 1),
    }
    .validate()
    .is_err());
}

#[test]
fn subcription_token_with_invalid_charachters_and_correct_length() {
    assert!(Parameters {
        subscription_token: invalid_string(SUBSCRIPTION_TOKEN_LENGTH),
    }
    .validate()
    .is_err());
}

#[test]
fn subcription_token_with_both_invalid_charachters_and_length() {
    assert!(Parameters {
        subscription_token: invalid_string(SUBSCRIPTION_TOKEN_LENGTH + 1),
    }
    .validate()
    .is_err());
}

#[test]
fn token_errors_name_the_first_fault() {
    let long = Parameters { subscription_token: invalid_string(26) };
    assert_eq!(long.validate(), Err(TokenError::WrongLength));
    let bad = Parameters { subscription_token: invalid_string(25) };
    assert_eq!(bad.validate(), Err(TokenError::NotAlphanumeric));
    let one_bad = Parameters { subscription_token: format!("{}-", valid_string(24)) };
    assert_eq!(one_bad.validate(), Err(TokenError::NotAlphanumeric));
    let non_ascii = Parameters { subscription_token: format!("{}é", valid_string(24)) };
    assert_eq!(non_ascii.validate(), Err(TokenError::NotAlphanumeric));
}

#[test]
fn confirm_with_a_short_token_is_refused_without_changes() {
    let (mut store, _) = registered_store();
    let param = Parameters { subscription_token: valid_string(24) };
    let r = confirm(&mut store, &param);
    assert_eq!(r, Err(ConfirmError::InvalidToken(TokenError::WrongLength)));
    assert_eq!(confirm_status(&r), 400);
    assert_eq!(store.subscriber_list()[0].status, SubscriptionStatus::PendingConfirmation);
}

#[test]
fn confirm_with_a_malformed_token_is_refused() {
    let (mut store, _) = registered_store();
    for t in ["", "   ", &invalid_string(25), &valid_string(26)] {
        let param = Parameters { subscription_token: t.to_string() };
        let r = confirm(&mut store, &param);
        assert!(matches!(r, Err(ConfirmError::InvalidToken(_))));
        assert_eq!(confirm_status(&r), 400);
    }
    assert_eq!(store.subscriber_list()[0].status, SubscriptionStatus::PendingConfirmation);
}

#[test]
fn confirm_with_an_unknown_token_is_unauthorized() {
    let (mut store, token) = registered_store();
    let mut other = valid_string(25);
    if other == token {
        other = valid_string(25).to_uppercase();
    }
    let r = confirm(&mut store, &Parameters { subscription_token: other });
    assert_eq!(r, Err(ConfirmError::Unauthorized));
    assert_eq!(confirm_status(&r), 401);
    assert_eq!(store.subscriber_list().len(), 1);
    assert_eq!(store.subscriber_list()[0].status, SubscriptionStatus::PendingConfirmation);
}

#[test]
fn confirm_on_an_empty_store_is_unauthorized() {
    let mut store = SubscriptionStore::new();
    let r = confirm(&mut store, &Parameters { subscription_token: valid_string(25) });
    assert_eq!(r, Err(ConfirmError::Unauthorized));
    assert!(store.subscriber_list().is_empty());
}

#[test]
fn confirm_with_the_issued_token_marks_the_subscriber_confirmed() {
    let (mut store, token) = registered_store();
    let r = confirm(&mut store, &Parameters { subscription_token: token.clone() });
    assert_eq!(r, Ok(()));
    assert_eq!(confirm_status(&r), 200);
    let row = &store.subscriber_list()[0];
    assert_eq!(row.status, SubscriptionStatus::Confirmed);
    assert_eq!(row.status.as_str(), "confirmed");
    assert_eq!(row.name, "le guin");
    assert_eq!(row.email, "ursula_le_guin@gmail.com");
}

#[test]
fn confirming_twice_succeeds_both_times() {
    let (mut store, token) = registered_store();
    let param = Parameters { subscription_token: token };
    assert_eq!(confirm(&mut store, &param), Ok(()));
    assert_eq!(confirm(&mut store, &param), Ok(()));
    assert_eq!(store.subscriber_list().len(), 1);
    assert_eq!(store.token_list().len(), 1);
    assert_eq!(store.subscriber_list()[0].status, SubscriptionStatus::Confirmed);
}

#[test]
fn confirm_touches_only_the_matching_subscriber() {
    let mut store = SubscriptionStore::new();
    for (name, email) in [("ann", "ann@example.com"), ("bob", "bob@example.com")] {
        let form = FormData { name: name.to_string(), email: email.to_string() };
        assert!(subscribe(&mut store, form, "https://news.example").is_ok());
    }
    let token = store.token_list()[1].token.clone();
    assert_eq!(confirm(&mut store, &Parameters { subscription_token: token }), Ok(()));
    let rows = store.subscriber_list();
    assert_eq!(rows[0].status, SubscriptionStatus::PendingConfirmation);
    assert_eq!(rows[1].status, SubscriptionStatus::Confirmed);
    assert_eq!(rows[1].name, "bob");
}
