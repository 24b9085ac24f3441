use vstd::prelude::*;

use rand::Rng;

use crate::domain::{email_accepted, email_error, is_trimmed, is_valid_name, name_error, NewSubscriber, SubscriberEmail};
use crate::store::{
    has_subscriber, has_token, StoreError, SubscriberRow, SubscriptionStatus, SubscriptionStore,
    TokenRow, Transaction,
};

verus! {

/// Number of characters in a confirmation token.
pub const SUBSCRIPTION_TOKEN_LENGTH: usize = 25;

/// The submitted registration form.
#[derive(Debug)]
pub struct FormData {
    pub name: String,
    pub email: String,
}

pub open spec fn is_ascii_alphanumeric(c: char) -> bool {
    ('0' <= c && c <= '9') || ('A' <= c && c <= 'Z') || ('a' <= c && c <= 'z')
}

/// Exactly `SUBSCRIPTION_TOKEN_LENGTH` ASCII letters and digits.
pub open spec fn is_well_formed_token(t: Seq<char>) -> bool {
    &&& t.len() == SUBSCRIPTION_TOKEN_LENGTH
    &&& forall|i: int| 0 <= i < t.len() ==> is_ascii_alphanumeric(#[trigger] t[i])
}

/// Relies on rand's `Alphanumeric` distribution, sampled with `thread_rng`: each draw is one
/// of the 62 ASCII letters and digits.
#[verifier::external_body]
fn random_alphanumeric() -> (c: char)
    ensures
        is_ascii_alphanumeric(c),
{
    char::from(rand::thread_rng().sample(rand::distributions::Alphanumeric))
}

/// Relies on `String::push`: appends one character.
pub assume_specification[ String::push ](s: &mut String, ch: char)
    ensures
        final(s)@ == old(s)@.push(ch),
;

/// Relies on `uuid::Uuid::new_v4`: a random identity, as its 128-bit value.
#[verifier::external_body]
fn new_subscriber_id() -> (r: u128) {
    uuid::Uuid::new_v4().as_u128()
}

/// Relies on `chrono::Utc::now`: the current time, in seconds since the Unix epoch.
#[verifier::external_body]
fn current_timestamp() -> (r: i64) {
    chrono::Utc::now().timestamp()
}

/// A fresh random confirmation token.
pub fn generate_subscription_token() -> (t: String)
    ensures
        is_well_formed_token(t@),
{
    let mut t = String::new();
    let mut i: usize = 0;
    while i < SUBSCRIPTION_TOKEN_LENGTH
        invariant
            i <= SUBSCRIPTION_TOKEN_LENGTH,
            t@.len() == i,
            forall|k: int| 0 <= k < i ==> is_ascii_alphanumeric(#[trigger] t@[k]),
        decreases SUBSCRIPTION_TOKEN_LENGTH - i,
    {
        let c = random_alphanumeric();
        t.push(c);
        i = i + 1;
    }
    t
}

/// Why a registration failed.
#[derive(Debug)]
pub enum SubscribeError {
    /// The name or the email was refused; the message names the value.
    Validation(String),
    /// A write or the commit was refused.
    Persistence(StoreError),
    /// The confirmation email could not be sent; the subscriber stays stored and pending.
    Delivery,
}

pub open spec fn status_of(r: Result<(), SubscribeError>) -> u16 {
    match r {
        Ok(()) => 200u16,
        Err(SubscribeError::Validation(_)) => 400u16,
        Err(_) => 500u16,
    }
}

/// The HTTP status reported for a registration: 200 on success, 400 for refused input, 500
/// for a storage or delivery failure.
pub fn subscribe_status(r: &Result<(), SubscribeError>) -> (s: u16)
    ensures
        s == status_of(*r),
{
    match r {
        Ok(()) => 200,
        Err(SubscribeError::Validation(_)) => 400,
        Err(_) => 500,
    }
}

/// What the dispatcher's answer makes of a registration that was stored.
pub fn dispatch_outcome(sent: bool) -> (r: Result<(), SubscribeError>)
    ensures
        sent ==> r is Ok,
        !sent ==> r is Err && r->Err_0 is Delivery,
        status_of(r) == (if sent {
            200u16
        } else {
            500u16
        }),
{
    if sent {
        Ok(())
    } else {
        Err(SubscribeError::Delivery)
    }
}

/// A message asking the subscriber to confirm.
#[derive(Debug)]
pub struct ConfirmationEmail {
    pub recipient: String,
    pub subject: String,
    pub html_body: String,
    pub text_body: String,
}

pub open spec fn confirmation_link(base_url: Seq<char>, token: Seq<char>) -> Seq<char> {
    base_url + "/subscriptions/confirm?subscription_token="@ + token
}

pub open spec fn html_body(link: Seq<char>) -> Seq<char> {
    "Welcome to our newsletter!<br />Click <a href=\""@ + link + "\">here</a> to confirm your subscription"@
}

pub open spec fn text_body(link: Seq<char>) -> Seq<char> {
    "Welcome to our newsletter!\nVisit "@ + link + " to confirm your subscription."@
}

/// `m` is the confirmation message for `recipient` carrying the link for `token`.
pub open spec fn is_confirmation_email(
    m: ConfirmationEmail,
    recipient: Seq<char>,
    base_url: Seq<char>,
    token: Seq<char>,
) -> bool {
    &&& m.recipient@ == recipient
    &&& m.subject@ == "Welcome"@
    &&& m.html_body@ == html_body(confirmation_link(base_url, token))
    &&& m.text_body@ == text_body(confirmation_link(base_url, token))
}

/// The confirmation message for `recipient`, linking to `base_url` with `token`.
pub fn confirmation_email(recipient: &SubscriberEmail, base_url: &str, token: &str) -> (m:
    ConfirmationEmail)
    ensures
        is_confirmation_email(m, recipient@, base_url@, token@),
{
    let link = String::from_str(base_url).concat("/subscriptions/confirm?subscription_token=").concat(
        token,
    );
    let html = String::from_str(
        "Welcome to our newsletter!<br />Click <a href=\"",
    ).concat(link.as_str()).concat("\">here</a> to confirm your subscription");
    let text = String::from_str("Welcome to our newsletter!\nVisit ").concat(link.as_str()).concat(
        " to confirm your subscription.",
    );
    ConfirmationEmail {
        recipient: String::from_str(recipient.as_str()),
        subject: String::from_str("Welcome"),
        html_body: html,
        text_body: text,
    }
}

/// `row` is a freshly written pending subscriber with these details.
pub open spec fn is_pending_row(row: SubscriberRow, id: u128, name: Seq<char>, email: Seq<char>) -> bool {
    &&& row.id == id
    &&& row.name == name
    &&& row.email == email
    &&& row.status == SubscriptionStatus::PendingConfirmation
}

/// Writes `subscriber` into `transaction` as pending, under a fresh random identity and the
/// current time; refused only when the drawn identity is taken.
pub fn insert_subscriber(
    store: &SubscriptionStore,
    subscriber: &NewSubscriber,
    transaction: &mut Transaction,
) -> (r: Result<u128, StoreError>)
    requires
        old(transaction).wf(),
    ensures
        final(transaction).wf(),
        final(transaction).pending_tokens() == old(transaction).pending_tokens(),
        match r {
            Ok(id) => {
                &&& !has_subscriber(store.subscribers(), id)
                &&& !has_subscriber(old(transaction).pending_subscribers(), id)
                &&& final(transaction).pending_subscribers()
                    == old(transaction).pending_subscribers().push(
                    final(transaction).pending_subscribers().last(),
                )
                &&& is_pending_row(
                    final(transaction).pending_subscribers().last(),
                    id,
                    subscriber.name@,
                    subscriber.email@,
                )
            },
            Err(e) => e == StoreError::DuplicateSubscriber
                && final(transaction).pending_subscribers() == old(transaction).pending_subscribers(),
        },
        r is Err ==> store.subscribers().len() > 0 || old(transaction).pending_subscribers().len() > 0,
{
    let id = new_subscriber_id();
    let at = current_timestamp();
    match store.add_subscriber(transaction, id, &subscriber.name, &subscriber.email, at) {
        Ok(()) => Ok(id),
        Err(e) => Err(e),
    }
}

/// Writes `subscription_token` for `subscriber_id` into `transaction`.
pub fn store_token(
    store: &SubscriptionStore,
    transaction: &mut Transaction,
    subscriber_id: u128,
    subscription_token: &str,
) -> (r: Result<(), StoreError>)
    requires
        old(transaction).wf(),
    ensures
        final(transaction).wf(),
        final(transaction).pending_subscribers() == old(transaction).pending_subscribers(),
        r is Ok <==> !has_token(store.tokens(), subscription_token@) && !has_token(
            old(transaction).pending_tokens(),
            subscription_token@,
        ) && (has_subscriber(store.subscribers(), subscriber_id) || has_subscriber(
            old(transaction).pending_subscribers(),
            subscriber_id,
        )),
        r is Ok ==> final(transaction).pending_tokens() == old(transaction).pending_tokens().push(
            (TokenRow { token: subscription_token@, subscriber_id }),
        ),
        r is Err ==> final(transaction).pending_tokens() == old(transaction).pending_tokens(),
{
    store.add_token(transaction, subscriber_id, String::from_str(subscription_token))
}

/// `after` holds the rows of `before` plus one pending subscriber with these details and one
/// well-formed token that belongs to it.
pub open spec fn registered(
    before: SubscriptionStore,
    after: SubscriptionStore,
    name: Seq<char>,
    email: Seq<char>,
) -> bool {
    let row = after.subscribers().last();
    let token = after.tokens().last();
    &&& after.subscribers() == before.subscribers().push(row)
    &&& after.tokens() == before.tokens().push(token)
    &&& is_pending_row(row, token.subscriber_id, name, email)
    &&& !has_subscriber(before.subscribers(), row.id)
    &&& is_well_formed_token(token.token)
    &&& !has_token(before.tokens(), token.token)
}

pub open spec fn is_validation_error<T>(r: Result<T, SubscribeError>) -> bool {
    r is Err && r->Err_0 is Validation
}

pub open spec fn unchanged(before: SubscriptionStore, after: SubscriptionStore) -> bool {
    after.subscribers() == before.subscribers() && after.tokens() == before.tokens()
}

/// Validates the form, then stores a pending subscriber and a fresh token in one transaction,
/// and returns the confirmation message to send. Nothing is stored unless both writes are.
pub fn subscribe(store: &mut SubscriptionStore, form: FormData, base_url: &str) -> (r: Result<
    ConfirmationEmail,
    SubscribeError,
>)
    requires
        old(store).wf(),
    ensures
        final(store).wf(),
        !is_valid_name(form.name@) || !form.email@.contains('@') || !is_trimmed(form.email@)
            ==> is_validation_error(r) && unchanged(*old(store), *final(store)),
        old(store).subscribers().len() == 0 && old(store).tokens().len() == 0 && is_valid_name(
            form.name@,
        ) && email_accepted(form.email@) ==> r is Ok,
        match r {
            Ok(m) => {
                &&& is_valid_name(form.name@)
                &&& email_accepted(form.email@)
                &&& registered(*old(store), *final(store), form.name@, form.email@)
                &&& is_confirmation_email(
                    m,
                    form.email@,
                    base_url@,
                    final(store).tokens().last().token,
                )
            },
            Err(SubscribeError::Validation(e)) => {
                &&& unchanged(*old(store), *final(store))
                &&& if !is_valid_name(form.name@) {
                    e@ == name_error(form.name@)
                } else {
                    !email_accepted(form.email@) && e@ == email_error(form.email@)
                }
            },
            Err(SubscribeError::Persistence(e)) => {
                &&& is_valid_name(form.name@)
                &&& email_accepted(form.email@)
                &&& unchanged(*old(store), *final(store))
                &&& (e == StoreError::DuplicateSubscriber || e == StoreError::DuplicateToken)
                &&& (e == StoreError::DuplicateSubscriber ==> old(store).subscribers().len() > 0)
                &&& (e == StoreError::DuplicateToken ==> old(store).tokens().len() > 0)
            },
            Err(SubscribeError::Delivery) => false,
        },
{
    let subscriber = match NewSubscriber::parse(form) {
        Ok(s) => s,
        Err(e) => return Err(SubscribeError::Validation(e)),
    };
    let mut transaction = store.begin();
    let subscriber_id = match insert_subscriber(store, &subscriber, &mut transaction) {
        Ok(id) => id,
        Err(e) => return Err(SubscribeError::Persistence(e)),
    };
    let ghost row = transaction.pending_subscribers().last();
    assert(transaction.pending_subscribers() =~= seq![row]);
    assert(transaction.pending_subscribers()[0].id == subscriber_id);
    let token = generate_subscription_token();
    match store_token(store, &mut transaction, subscriber_id, token.as_str()) {
        Ok(()) => {},
        Err(_) => {
            return Err(SubscribeError::Persistence(StoreError::DuplicateToken));
        },
    }
    let ghost token_row = TokenRow { token: token@, subscriber_id };
    assert(transaction.pending_tokens() =~= seq![token_row]);
    proof {
        let joined = store.subscribers() + transaction.pending_subscribers();
        assert(joined[store.subscribers().len() as int].id == subscriber_id);
        assert(has_subscriber(joined, subscriber_id));
    }
    let ghost before = *store;
    match store.commit(transaction) {
        Ok(()) => {},
        Err(e) => {
            assert(false);
            return Err(SubscribeError::Persistence(e));
        },
    }
    assert(store.subscribers() =~= before.subscribers().push(row));
    assert(store.tokens() =~= before.tokens().push(token_row));
    Ok(confirmation_email(&subscriber.email, base_url, token.as_str()))
}

/// A registration that stored its rows and whose confirmation email could not be sent is
/// reported as a server fault (500), while its subscriber stays stored as pending together
/// with its token.
pub proof fn lemma_failed_delivery_keeps_registration(
    before: SubscriptionStore,
    after: SubscriptionStore,
    name: Seq<char>,
    email: Seq<char>,
)
    requires
        registered(before, after, name, email),
    ensures
        status_of(Err(SubscribeError::Delivery)) == 500,
        after.subscribers().len() == before.subscribers().len() + 1,
        after.subscribers().last().status == SubscriptionStatus::PendingConfirmation,
        after.subscribers().last().name == name,
        after.subscribers().last().email == email,
        after.tokens().last().subscriber_id == after.subscribers().last().id,
{
}

} // verus!
