use vstd::prelude::*;

use crate::store::{
    confirm_rows, has_subscriber, has_token, token_owner, SubscriberRow, SubscriptionStatus,
    SubscriptionStore, TokenRow,
};
use crate::subscriptions::{
    is_ascii_alphanumeric, is_well_formed_token, registered,
    SUBSCRIPTION_TOKEN_LENGTH,
};

verus! {

/// The query of a confirmation link.
#[derive(Debug)]
pub struct Parameters {
    pub subscription_token: String,
}

/// Why a token was refused before any lookup.
#[derive(Clone, Copy, Debug, PartialEq, Eq, Structural)]
pub enum TokenError {
    WrongLength,
    NotAlphanumeric,
}

/// Why a confirmation failed.
#[derive(Clone, Copy, Debug, PartialEq, Eq, Structural)]
pub enum ConfirmError {
    InvalidToken(TokenError),
    /// Well formed, but never issued.
    Unauthorized,
}

pub open spec fn token_error(t: Seq<char>) -> TokenError {
    if t.len() != SUBSCRIPTION_TOKEN_LENGTH {
        TokenError::WrongLength
    } else {
        TokenError::NotAlphanumeric
    }
}

/// What confirming with `token` answers, given the stored tokens.
pub open spec fn confirm_outcome(tokens: Seq<TokenRow>, token: Seq<char>) -> Result<(), ConfirmError> {
    if !is_well_formed_token(token) {
        Err(ConfirmError::InvalidToken(token_error(token)))
    } else if token_owner(tokens, token) is None {
        Err(ConfirmError::Unauthorized)
    } else {
        Ok(())
    }
}

/// The subscriber rows after confirming with `token`.
pub open spec fn confirm_effect(
    subscribers: Seq<SubscriberRow>,
    tokens: Seq<TokenRow>,
    token: Seq<char>,
) -> Seq<SubscriberRow> {
    if is_well_formed_token(token) && token_owner(tokens, token) is Some {
        confirm_rows(subscribers, token_owner(tokens, token)->Some_0)
    } else {
        subscribers
    }
}

fn is_ascii_alphanumeric_char(c: char) -> (r: bool)
    ensures
        r == is_ascii_alphanumeric(c),
{
    ('0' <= c && c <= '9') || ('A' <= c && c <= 'Z') || ('a' <= c && c <= 'z')
}

/// Refuses a token with a character that is not an ASCII letter or digit.
fn validate_subscription_token(token: &str) -> (r: Result<(), TokenError>)
    ensures
        r is Ok <==> forall|i: int| 0 <= i < token@.len() ==> is_ascii_alphanumeric(#[trigger] token@[i]),
        r is Err ==> r == Err::<(), TokenError>(TokenError::NotAlphanumeric),
{
    let n = token.unicode_len();
    let mut i: usize = 0;
    while i < n
        invariant
            n == token@.len(),
            i <= n,
            forall|k: int| 0 <= k < i ==> is_ascii_alphanumeric(#[trigger] token@[k]),
        decreases n - i,
    {
        if !is_ascii_alphanumeric_char(token.get_char(i)) {
            return Err(TokenError::NotAlphanumeric);
        }
        i = i + 1;
    }
    Ok(())
}

impl Parameters {
    /// Accepts exactly the well-formed tokens; a wrong length is reported first.
    pub fn validate(&self) -> (r: Result<(), TokenError>)
        ensures
            r is Ok <==> is_well_formed_token(self.subscription_token@),
            r is Err ==> r->Err_0 == token_error(self.subscription_token@),
    {
        if self.subscription_token.as_str().unicode_len() != SUBSCRIPTION_TOKEN_LENGTH {
            return Err(TokenError::WrongLength);
        }
        validate_subscription_token(self.subscription_token.as_str())
    }
}

/// Checks the token's shape, then looks up its subscriber and marks it confirmed. A refused
/// token touches nothing; confirming twice is the same as confirming once.
pub fn confirm(store: &mut SubscriptionStore, param: &Parameters) -> (r: Result<(), ConfirmError>)
    requires
        old(store).wf(),
    ensures
        final(store).wf(),
        r == confirm_outcome(old(store).tokens(), param.subscription_token@),
        final(store).subscribers() == confirm_effect(
            old(store).subscribers(),
            old(store).tokens(),
            param.subscription_token@,
        ),
        final(store).tokens() == old(store).tokens(),
        !is_well_formed_token(param.subscription_token@) ==> r is Err && r->Err_0 is InvalidToken
            && final(store).subscribers() == old(store).subscribers(),
        is_well_formed_token(param.subscription_token@) && !has_token(
            old(store).tokens(),
            param.subscription_token@,
        ) ==> r == Err::<(), ConfirmError>(ConfirmError::Unauthorized)
            && final(store).subscribers() == old(store).subscribers(),
{
    match param.validate() {
        Ok(()) => {},
        Err(e) => return Err(ConfirmError::InvalidToken(e)),
    }
    match store.lookup_subscriber_id_by_token(param.subscription_token.as_str()) {
        None => Err(ConfirmError::Unauthorized),
        Some(subscriber_id) => {
            store.mark_confirmed(subscriber_id);
            Ok(())
        },
    }
}

/// The HTTP status reported for a confirmation: 200, 400 for a malformed token, 401 for an
/// unknown one.
pub fn confirm_status(r: &Result<(), ConfirmError>) -> (s: u16)
    ensures
        s == (match r {
            Ok(()) => 200u16,
            Err(ConfirmError::InvalidToken(_)) => 400u16,
            Err(ConfirmError::Unauthorized) => 401u16,
        }),
{
    match r {
        Ok(()) => 200,
        Err(ConfirmError::InvalidToken(_)) => 400,
        Err(ConfirmError::Unauthorized) => 401,
    }
}

proof fn lemma_confirm_rows_idempotent(rows: Seq<SubscriberRow>, id: u128)
    ensures
        confirm_rows(confirm_rows(rows, id), id) == confirm_rows(rows, id),
{
    assert(confirm_rows(confirm_rows(rows, id), id) =~= confirm_rows(rows, id));
}

/// Confirming with an issued token succeeds and marks confirmed exactly the rows of the
/// subscriber it was issued for, leaving every other row as it was; confirming again with
/// the same token succeeds too and changes nothing further.
pub proof fn lemma_confirm_issued_token(store: SubscriptionStore, token: Seq<char>)
    requires
        store.wf(),
        is_well_formed_token(token),
        has_token(store.tokens(), token),
    ensures
        ({
            let id = token_owner(store.tokens(), token)->Some_0;
            let once = confirm_effect(store.subscribers(), store.tokens(), token);
            &&& confirm_outcome(store.tokens(), token) is Ok
            &&& has_subscriber(store.subscribers(), id)
            &&& once.len() == store.subscribers().len()
            &&& forall|k: int|
                0 <= k < once.len() ==> #[trigger] once[k] == (if store.subscribers()[k].id == id {
                    SubscriberRow { status: SubscriptionStatus::Confirmed, ..store.subscribers()[k] }
                } else {
                    store.subscribers()[k]
                })
            &&& confirm_effect(once, store.tokens(), token) == once
        }),
{
    let tokens = store.tokens();
    let i = choose|i: int| 0 <= i < tokens.len() && (#[trigger] tokens[i]).token == token;
    assert(has_subscriber(store.subscribers(), tokens[i].subscriber_id));
    let id = token_owner(tokens, token)->Some_0;
    lemma_confirm_rows_idempotent(store.subscribers(), id);
}

/// The token that a registration stored confirms its subscriber: the confirmation succeeds,
/// the new row becomes confirmed, and every earlier row stays as it was.
pub proof fn lemma_registered_token_confirms(
    before: SubscriptionStore,
    after: SubscriptionStore,
    name: Seq<char>,
    email: Seq<char>,
)
    requires
        after.wf(),
        registered(before, after, name, email),
    ensures
        ({
            let row = after.subscribers().last();
            let token = after.tokens().last().token;
            &&& confirm_outcome(after.tokens(), token) is Ok
            &&& confirm_effect(after.subscribers(), after.tokens(), token)
                == before.subscribers().push(
                SubscriberRow { status: SubscriptionStatus::Confirmed, ..row },
            )
        }),
{
    let row = after.subscribers().last();
    let tokens = after.tokens();
    let last = tokens.len() - 1;
    let token = tokens[last].token;
    assert(tokens[last].token == token);
    assert(has_token(tokens, token));
    let j = choose|j: int| 0 <= j < tokens.len() && (#[trigger] tokens[j]).token == token;
    assert(j == last);
    assert(token_owner(tokens, token) == Some(row.id));
    let old_rows = before.subscribers();
    assert forall|k: int| 0 <= k < old_rows.len() implies (#[trigger] old_rows[k]).id != row.id by {
        if old_rows[k].id == row.id {
            assert(has_subscriber(old_rows, row.id));
        }
    }
    assert(confirm_rows(after.subscribers(), row.id) =~= before.subscribers().push(
        SubscriberRow { status: SubscriptionStatus::Confirmed, ..row },
    ));
}

} // verus!
