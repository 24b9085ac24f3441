use vstd::prelude::*;

use crate::domain::{SubscriberEmail, SubscriberName};

verus! {

/// Lifecycle of a subscriber: only ever moves from pending to confirmed.
#[derive(Clone, Copy, Debug, PartialEq, Eq, Structural)]
pub enum SubscriptionStatus {
    PendingConfirmation,
    Confirmed,
}

impl SubscriptionStatus {
    /// The text stored in the `status` column.
    pub fn as_str(&self) -> (r: &'static str)
        ensures
            r@ == (match self {
                SubscriptionStatus::PendingConfirmation => "pending_confirmation"@,
                SubscriptionStatus::Confirmed => "confirmed"@,
            }),
    {
        match self {
            SubscriptionStatus::PendingConfirmation => "pending_confirmation",
            SubscriptionStatus::Confirmed => "confirmed",
        }
    }
}

/// One stored subscriber.
#[derive(Debug)]
pub struct Subscriber {
    pub id: u128,
    pub name: String,
    pub email: String,
    pub subscribed_at: i64,
    pub status: SubscriptionStatus,
}

/// The mathematical content of a `Subscriber`.
pub struct SubscriberRow {
    pub id: u128,
    pub name: Seq<char>,
    pub email: Seq<char>,
    pub subscribed_at: i64,
    pub status: SubscriptionStatus,
}

impl View for Subscriber {
    type V = SubscriberRow;

    open spec fn view(&self) -> SubscriberRow {
        SubscriberRow {
            id: self.id,
            name: self.name@,
            email: self.email@,
            subscribed_at: self.subscribed_at,
            status: self.status,
        }
    }
}

/// One stored confirmation token and the subscriber it belongs to.
#[derive(Debug)]
pub struct TokenRecord {
    pub token: String,
    pub subscriber_id: u128,
}

pub struct TokenRow {
    pub token: Seq<char>,
    pub subscriber_id: u128,
}

impl View for TokenRecord {
    type V = TokenRow;

    open spec fn view(&self) -> TokenRow {
        TokenRow { token: self.token@, subscriber_id: self.subscriber_id }
    }
}

/// A constraint that a write would break.
#[derive(Clone, Copy, Debug, PartialEq, Eq, Structural)]
pub enum StoreError {
    DuplicateSubscriber,
    DuplicateToken,
    UnknownSubscriber,
}

pub open spec fn subscriber_rows(v: Seq<Subscriber>) -> Seq<SubscriberRow> {
    v.map_values(|s: Subscriber| s@)
}

pub open spec fn token_rows(v: Seq<TokenRecord>) -> Seq<TokenRow> {
    v.map_values(|t: TokenRecord| t@)
}

pub open spec fn has_subscriber(rows: Seq<SubscriberRow>, id: u128) -> bool {
    exists|i: int| 0 <= i < rows.len() && (#[trigger] rows[i]).id == id
}

pub open spec fn has_token(rows: Seq<TokenRow>, token: Seq<char>) -> bool {
    exists|i: int| 0 <= i < rows.len() && (#[trigger] rows[i]).token == token
}

pub open spec fn ids_unique(rows: Seq<SubscriberRow>) -> bool {
    forall|i: int, j: int|
        0 <= i < rows.len() && 0 <= j < rows.len() && i != j ==> #[trigger] rows[i].id
            != #[trigger] rows[j].id
}

pub open spec fn tokens_unique(rows: Seq<TokenRow>) -> bool {
    forall|i: int, j: int|
        0 <= i < rows.len() && 0 <= j < rows.len() && i != j ==> #[trigger] rows[i].token
            != #[trigger] rows[j].token
}

/// Every token row points at a stored subscriber.
pub open spec fn tokens_linked(tokens: Seq<TokenRow>, subscribers: Seq<SubscriberRow>) -> bool {
    forall|i: int| 0 <= i < tokens.len() ==> has_subscriber(subscribers, #[trigger] tokens[i].subscriber_id)
}

/// The subscriber that `token` belongs to, if it was issued.
pub open spec fn token_owner(tokens: Seq<TokenRow>, token: Seq<char>) -> Option<u128> {
    if has_token(tokens, token) {
        let i = choose|i: int| 0 <= i < tokens.len() && (#[trigger] tokens[i]).token == token;
        Some(tokens[i].subscriber_id)
    } else {
        None
    }
}

/// The rows after every row with identity `id` is marked confirmed.
pub open spec fn confirm_rows(rows: Seq<SubscriberRow>, id: u128) -> Seq<SubscriberRow> {
    rows.map_values(
        |r: SubscriberRow|
            if r.id == id {
                SubscriberRow { status: SubscriptionStatus::Confirmed, ..r }
            } else {
                r
            },
    )
}

/// Whether a transaction's writes fit the committed rows: no identity or token is taken, and
/// every token points at a subscriber, committed or written alongside.
pub open spec fn commit_fits(
    subscribers: Seq<SubscriberRow>,
    tokens: Seq<TokenRow>,
    new_subscribers: Seq<SubscriberRow>,
    new_tokens: Seq<TokenRow>,
) -> bool {
    &&& forall|i: int|
        0 <= i < new_subscribers.len() ==> !has_subscriber(
            subscribers,
            #[trigger] new_subscribers[i].id,
        )
    &&& forall|i: int| 0 <= i < new_tokens.len() ==> !has_token(tokens, #[trigger] new_tokens[i].token)
    &&& tokens_linked(new_tokens, subscribers + new_subscribers)
}

/// Writes gathered for one all-or-nothing commit.
pub struct Transaction {
    subscribers: Vec<Subscriber>,
    tokens: Vec<TokenRecord>,
}

impl Transaction {
    pub closed spec fn pending_subscribers(&self) -> Seq<SubscriberRow> {
        subscriber_rows(self.subscribers@)
    }

    pub closed spec fn pending_tokens(&self) -> Seq<TokenRow> {
        token_rows(self.tokens@)
    }

    pub open spec fn wf(&self) -> bool {
        ids_unique(self.pending_subscribers()) && tokens_unique(self.pending_tokens())
    }
}

/// Subscribers and their confirmation tokens.
pub struct SubscriptionStore {
    subscribers: Vec<Subscriber>,
    tokens: Vec<TokenRecord>,
}

fn find_subscriber(v: &Vec<Subscriber>, id: u128) -> (r: Option<usize>)
    ensures
        match r {
            Some(i) => i < v@.len() && v@[i as int].id == id && has_subscriber(
                subscriber_rows(v@),
                id,
            ),
            None => !has_subscriber(subscriber_rows(v@), id),
        },
{
    let mut i: usize = 0;
    while i < v.len()
        invariant
            i <= v@.len(),
            forall|k: int| 0 <= k < i ==> v@[k].id != id,
        decreases v@.len() - i,
    {
        if v[i].id == id {
            assert(subscriber_rows(v@)[i as int].id == id);
            return Some(i);
        }
        i = i + 1;
    }
    proof {
        let rows = subscriber_rows(v@);
        assert forall|k: int| 0 <= k < rows.len() implies (#[trigger] rows[k]).id != id by {
            assert(v@[k].id != id);
        }
    }
    None
}

fn find_token(v: &Vec<TokenRecord>, token: &String) -> (r: Option<usize>)
    ensures
        match r {
            Some(i) => i < v@.len() && v@[i as int].token@ == token@ && has_token(
                token_rows(v@),
                token@,
            ),
            None => !has_token(token_rows(v@), token@),
        },
{
    let mut i: usize = 0;
    while i < v.len()
        invariant
            i <= v@.len(),
            forall|k: int| 0 <= k < i ==> v@[k].token@ != token@,
        decreases v@.len() - i,
    {
        if v[i].token == *token {
            assert(token_rows(v@)[i as int].token == token@);
            return Some(i);
        }
        i = i + 1;
    }
    proof {
        let rows = token_rows(v@);
        assert forall|k: int| 0 <= k < rows.len() implies (#[trigger] rows[k]).token != token@ by {
            assert(v@[k].token@ != token@);
        }
    }
    None
}

proof fn lemma_has_subscriber_concat(a: Seq<SubscriberRow>, b: Seq<SubscriberRow>, id: u128)
    ensures
        has_subscriber(a + b, id) <==> has_subscriber(a, id) || has_subscriber(b, id),
{
    let ab = a + b;
    if has_subscriber(ab, id) {
        let i = choose|i: int| 0 <= i < ab.len() && (#[trigger] ab[i]).id == id;
        if i < a.len() {
            assert(a[i].id == id);
        } else {
            assert(b[i - a.len()].id == id);
        }
    }
    if has_subscriber(a, id) {
        let i = choose|i: int| 0 <= i < a.len() && (#[trigger] a[i]).id == id;
        assert(ab[i].id == id);
    }
    if has_subscriber(b, id) {
        let i = choose|i: int| 0 <= i < b.len() && (#[trigger] b[i]).id == id;
        assert(ab[i + a.len()].id == id);
    }
}

proof fn lemma_commit_keeps_wf(
    subscribers: Seq<SubscriberRow>,
    tokens: Seq<TokenRow>,
    new_subscribers: Seq<SubscriberRow>,
    new_tokens: Seq<TokenRow>,
)
    requires
        ids_unique(subscribers),
        tokens_unique(tokens),
        tokens_linked(tokens, subscribers),
        ids_unique(new_subscribers),
        tokens_unique(new_tokens),
        commit_fits(subscribers, tokens, new_subscribers, new_tokens),
    ensures
        ids_unique(subscribers + new_subscribers),
        tokens_unique(tokens + new_tokens),
        tokens_linked(tokens + new_tokens, subscribers + new_subscribers),
{
    let s = subscribers + new_subscribers;
    let t = tokens + new_tokens;
    let n = subscribers.len();
    let m = tokens.len();
    assert forall|i: int, j: int| 0 <= i < s.len() && 0 <= j < s.len() && i != j implies #[trigger] s[i].id
        != #[trigger] s[j].id by {
        if i < n && j >= n {
            assert(!has_subscriber(subscribers, new_subscribers[j - n].id));
            assert(subscribers[i].id == s[i].id);
        } else if i >= n && j < n {
            assert(!has_subscriber(subscribers, new_subscribers[i - n].id));
            assert(subscribers[j].id == s[j].id);
        } else if i < n && j < n {
            assert(subscribers[i] == s[i] && subscribers[j] == s[j]);
        } else {
            assert(new_subscribers[i - n] == s[i] && new_subscribers[j - n] == s[j]);
        }
    }
    assert forall|i: int, j: int| 0 <= i < t.len() && 0 <= j < t.len() && i != j implies #[trigger] t[i].token
        != #[trigger] t[j].token by {
        if i < m && j >= m {
            assert(!has_token(tokens, new_tokens[j - m].token));
            assert(tokens[i].token == t[i].token);
        } else if i >= m && j < m {
            assert(!has_token(tokens, new_tokens[i - m].token));
            assert(tokens[j].token == t[j].token);
        } else if i < m && j < m {
            assert(tokens[i] == t[i] && tokens[j] == t[j]);
        } else {
            assert(new_tokens[i - m] == t[i] && new_tokens[j - m] == t[j]);
        }
    }
    assert forall|i: int| 0 <= i < t.len() implies has_subscriber(s, #[trigger] t[i].subscriber_id) by {
        if i < m {
            assert(tokens[i] == t[i]);
            lemma_has_subscriber_concat(subscribers, new_subscribers, tokens[i].subscriber_id);
        } else {
            assert(new_tokens[i - m] == t[i]);
        }
    }
}

impl SubscriptionStore {
    pub closed spec fn subscribers(&self) -> Seq<SubscriberRow> {
        subscriber_rows(self.subscribers@)
    }

    pub closed spec fn tokens(&self) -> Seq<TokenRow> {
        token_rows(self.tokens@)
    }

    /// Identities and tokens are unique, and no token is without its subscriber.
    pub open spec fn wf(&self) -> bool {
        &&& ids_unique(self.subscribers())
        &&& tokens_unique(self.tokens())
        &&& tokens_linked(self.tokens(), self.subscribers())
    }

    /// An empty store.
    pub fn new() -> (r: SubscriptionStore)
        ensures
            r.wf(),
            r.subscribers() == Seq::<SubscriberRow>::empty(),
            r.tokens() == Seq::<TokenRow>::empty(),
    {
        let r = SubscriptionStore { subscribers: Vec::new(), tokens: Vec::new() };
        assert(r.subscribers() =~= Seq::<SubscriberRow>::empty());
        assert(r.tokens() =~= Seq::<TokenRow>::empty());
        r
    }

    /// The stored subscribers, in order of insertion.
    pub fn subscriber_list(&self) -> (r: &Vec<Subscriber>)
        ensures
            subscriber_rows(r@) == self.subscribers(),
    {
        &self.subscribers
    }

    /// The stored tokens, in order of insertion.
    pub fn token_list(&self) -> (r: &Vec<TokenRecord>)
        ensures
            token_rows(r@) == self.tokens(),
    {
        &self.tokens
    }

    /// Opens a transaction with no writes.
    pub fn begin(&self) -> (tx: Transaction)
        ensures
            tx.wf(),
            tx.pending_subscribers() == Seq::<SubscriberRow>::empty(),
            tx.pending_tokens() == Seq::<TokenRow>::empty(),
    {
        let tx = Transaction { subscribers: Vec::new(), tokens: Vec::new() };
        assert(tx.pending_subscribers() =~= Seq::<SubscriberRow>::empty());
        assert(tx.pending_tokens() =~= Seq::<TokenRow>::empty());
        tx
    }

    /// Writes a pending subscriber into `tx`; refused when the identity is already taken, in
    /// the store or in `tx`.
    pub fn add_subscriber(
        &self,
        tx: &mut Transaction,
        id: u128,
        name: &SubscriberName,
        email: &SubscriberEmail,
        subscribed_at: i64,
    ) -> (r: Result<(), StoreError>)
        requires
            old(tx).wf(),
        ensures
            final(tx).wf(),
            final(tx).pending_tokens() == old(tx).pending_tokens(),
            r is Ok <==> !has_subscriber(self.subscribers(), id) && !has_subscriber(
                old(tx).pending_subscribers(),
                id,
            ),
            r is Ok ==> final(tx).pending_subscribers() == old(tx).pending_subscribers().push(
                (SubscriberRow {
                    id,
                    name: name@,
                    email: email@,
                    subscribed_at,
                    status: SubscriptionStatus::PendingConfirmation,
                }),
            ),
            r is Err ==> r == Err::<(), StoreError>(StoreError::DuplicateSubscriber)
                && final(tx).pending_subscribers() == old(tx).pending_subscribers(),
    {
        if find_subscriber(&self.subscribers, id).is_some() || find_subscriber(
            &tx.subscribers,
            id,
        ).is_some() {
            return Err(StoreError::DuplicateSubscriber);
        }
        let row = Subscriber {
            id,
            name: String::from_str(name.as_str()),
            email: String::from_str(email.as_str()),
            subscribed_at,
            status: SubscriptionStatus::PendingConfirmation,
        };
        let ghost before = tx.subscribers@;
        tx.subscribers.push(row);
        proof {
            assert(subscriber_rows(tx.subscribers@) =~= subscriber_rows(before).push(row@));
            let rows = subscriber_rows(tx.subscribers@);
            let n = before.len() as int;
            assert forall|i: int, j: int|
                0 <= i < rows.len() && 0 <= j < rows.len() && i != j implies #[trigger] rows[i].id
                != #[trigger] rows[j].id by {
                if i == n {
                    assert(subscriber_rows(before)[j].id == rows[j].id);
                } else if j == n {
                    assert(subscriber_rows(before)[i].id == rows[i].id);
                } else {
                    assert(subscriber_rows(before)[i] == rows[i]);
                    assert(subscriber_rows(before)[j] == rows[j]);
                }
            }
        }
        Ok(())
    }

    /// Writes a token for `subscriber_id` into `tx`; refused when the token is already
    /// taken, or when no subscriber with that identity is stored or written in `tx`.
    pub fn add_token(&self, tx: &mut Transaction, subscriber_id: u128, token: String) -> (r:
        Result<(), StoreError>)
        requires
            old(tx).wf(),
        ensures
            final(tx).wf(),
            final(tx).pending_subscribers() == old(tx).pending_subscribers(),
            r is Ok <==> !has_token(self.tokens(), token@) && !has_token(
                old(tx).pending_tokens(),
                token@,
            ) && (has_subscriber(self.subscribers(), subscriber_id) || has_subscriber(
                old(tx).pending_subscribers(),
                subscriber_id,
            )),
            r is Ok ==> final(tx).pending_tokens() == old(tx).pending_tokens().push(
                (TokenRow { token: token@, subscriber_id }),
            ),
            r is Err ==> final(tx).pending_tokens() == old(tx).pending_tokens(),
    {
        if find_token(&self.tokens, &token).is_some() || find_token(&tx.tokens, &token).is_some() {
            return Err(StoreError::DuplicateToken);
        }
        if find_subscriber(&self.subscribers, subscriber_id).is_none() && find_subscriber(
            &tx.subscribers,
            subscriber_id,
        ).is_none() {
            return Err(StoreError::UnknownSubscriber);
        }
        let row = TokenRecord { token, subscriber_id };
        let ghost before = tx.tokens@;
        tx.tokens.push(row);
        proof {
            assert(token_rows(tx.tokens@) =~= token_rows(before).push(row@));
            let rows = token_rows(tx.tokens@);
            let n = before.len() as int;
            assert forall|i: int, j: int|
                0 <= i < rows.len() && 0 <= j < rows.len() && i != j implies #[trigger] rows[i].token
                != #[trigger] rows[j].token by {
                if i == n {
                    assert(token_rows(before)[j].token == rows[j].token);
                } else if j == n {
                    assert(token_rows(before)[i].token == rows[i].token);
                } else {
                    assert(token_rows(before)[i] == rows[i]);
                    assert(token_rows(before)[j] == rows[j]);
                }
            }
        }
        Ok(())
    }

    /// Applies every write of `tx`, or none: refused when a write no longer fits the committed
    /// rows.
    pub fn commit(&mut self, mut tx: Transaction) -> (r: Result<(), StoreError>)
        requires
            old(self).wf(),
            tx.wf(),
        ensures
            final(self).wf(),
            r is Ok <==> commit_fits(
                old(self).subscribers(),
                old(self).tokens(),
                tx.pending_subscribers(),
                tx.pending_tokens(),
            ),
            r is Ok ==> final(self).subscribers() == old(self).subscribers()
                + tx.pending_subscribers() && final(self).tokens() == old(self).tokens()
                + tx.pending_tokens(),
            r is Err ==> final(self).subscribers() == old(self).subscribers()
                && final(self).tokens() == old(self).tokens(),
    {
        let ghost ns = tx.pending_subscribers();
        let ghost nt = tx.pending_tokens();
        let mut i: usize = 0;
        while i < tx.subscribers.len()
            invariant
                self.wf(),
                self.subscribers() == old(self).subscribers(),
                self.tokens() == old(self).tokens(),
                ns == tx.pending_subscribers(),
                nt == tx.pending_tokens(),
                i <= ns.len(),
                ns == subscriber_rows(tx.subscribers@),
                forall|k: int| 0 <= k < i ==> !has_subscriber(self.subscribers(), #[trigger] ns[k].id),
            decreases ns.len() - i,
        {
            if find_subscriber(&self.subscribers, tx.subscribers[i].id).is_some() {
                assert(ns[i as int].id == tx.subscribers@[i as int].id);
                assert(has_subscriber(self.subscribers(), ns[i as int].id));
                return Err(StoreError::DuplicateSubscriber);
            }
            i = i + 1;
        }
        let mut j: usize = 0;
        while j < tx.tokens.len()
            invariant
                self.wf(),
                self.subscribers() == old(self).subscribers(),
                self.tokens() == old(self).tokens(),
                ns == tx.pending_subscribers(),
                nt == tx.pending_tokens(),
                j <= nt.len(),
                nt == token_rows(tx.tokens@),
                ns == subscriber_rows(tx.subscribers@),
                forall|k: int| 0 <= k < ns.len() ==> !has_subscriber(self.subscribers(), #[trigger] ns[k].id),
                forall|k: int| 0 <= k < j ==> !has_token(self.tokens(), #[trigger] nt[k].token),
                forall|k: int| 0 <= k < j ==> has_subscriber(self.subscribers() + ns, #[trigger] nt[k].subscriber_id),
            decreases nt.len() - j,
        {
            assert(nt[j as int].token == tx.tokens@[j as int].token@);
            assert(nt[j as int].subscriber_id == tx.tokens@[j as int].subscriber_id);
            if find_token(&self.tokens, &tx.tokens[j].token).is_some() {
                assert(has_token(self.tokens(), nt[j as int].token));
                return Err(StoreError::DuplicateToken);
            }
            let owner = tx.tokens[j].subscriber_id;
            proof {
                lemma_has_subscriber_concat(self.subscribers(), ns, owner);
            }
            if find_subscriber(&self.subscribers, owner).is_none() && find_subscriber(
                &tx.subscribers,
                owner,
            ).is_none() {
                assert(!has_subscriber(self.subscribers() + ns, nt[j as int].subscriber_id));
                return Err(StoreError::UnknownSubscriber);
            }
            j = j + 1;
        }
        proof {
            lemma_commit_keeps_wf(self.subscribers(), self.tokens(), ns, nt);
        }
        let ghost old_subscribers = self.subscribers@;
        let ghost old_tokens = self.tokens@;
        self.subscribers.append(&mut tx.subscribers);
        self.tokens.append(&mut tx.tokens);
        assert(self.subscribers() =~= subscriber_rows(old_subscribers) + ns);
        assert(self.tokens() =~= token_rows(old_tokens) + nt);
        Ok(())
    }

    /// The subscriber that `token` was issued for, if any.
    pub fn lookup_subscriber_id_by_token(&self, token: &str) -> (r: Option<u128>)
        requires
            self.wf(),
        ensures
            r == token_owner(self.tokens(), token@),
    {
        let key = String::from_str(token);
        match find_token(&self.tokens, &key) {
            Some(i) => {
                proof {
                    let rows = self.tokens();
                    let j = choose|j: int| 0 <= j < rows.len() && (#[trigger] rows[j]).token == token@;
                    assert(rows[i as int].token == token@);
                }
                Some(self.tokens[i].subscriber_id)
            },
            None => None,
        }
    }

    /// Marks the subscriber with identity `id` confirmed; a confirmed or unknown one is left
    /// as it is.
    pub fn mark_confirmed(&mut self, id: u128)
        requires
            old(self).wf(),
        ensures
            final(self).wf(),
            final(self).subscribers() == confirm_rows(old(self).subscribers(), id),
            final(self).tokens() == old(self).tokens(),
    {
        let ghost before = self.subscribers();
        let ghost target = confirm_rows(before, id);
        let n = self.subscribers.len();
        let mut i: usize = 0;
        while i < n
            invariant
                n == before.len(),
                i <= n,
                self.subscribers@.len() == n,
                self.tokens() == old(self).tokens(),
                before == old(self).subscribers(),
                target == confirm_rows(before, id),
                forall|k: int| 0 <= k < i ==> #[trigger] self.subscribers()[k] == target[k],
                forall|k: int| i <= k < n ==> #[trigger] self.subscribers()[k] == before[k],
            decreases n - i,
        {
            if self.subscribers[i].id == id {
                let ghost prev = self.subscribers@;
                assert(self.subscribers()[i as int] == before[i as int]);
                assert(prev[i as int]@ == before[i as int]);
                let mut s = self.subscribers.remove(i);
                assert(s@ == before[i as int]);
                s.status = SubscriptionStatus::Confirmed;
                assert(s@ == target[i as int]);
                self.subscribers.insert(i, s);
                assert(self.subscribers@ =~= prev.update(i as int, s));
                assert forall|k: int| 0 <= k < n && k != i implies #[trigger] self.subscribers()[k]
                    == subscriber_rows(prev)[k] by {
                    assert(self.subscribers@[k] == prev[k]);
                }
            }
            assert(self.subscribers()[i as int] == target[i as int]);
            i = i + 1;
        }
        assert(self.subscribers() =~= target);
        proof {
            let rows = self.subscribers();
            assert forall|a: int, b: int|
                0 <= a < rows.len() && 0 <= b < rows.len() && a != b implies #[trigger] rows[a].id
                != #[trigger] rows[b].id by {
                assert(before[a].id == rows[a].id && before[b].id == rows[b].id);
            }
            let toks = self.tokens();
            assert forall|k: int| 0 <= k < toks.len() implies has_subscriber(
                rows,
                #[trigger] toks[k].subscriber_id,
            ) by {
                let x = toks[k].subscriber_id;
                assert(has_subscriber(before, x));
                let w = choose|w: int| 0 <= w < before.len() && (#[trigger] before[w]).id == x;
                assert(rows[w].id == x);
            }
        }
    }
}

} // verus!
