use vstd::prelude::*;

use crate::domain::str_eq;

verus! {

/// Where a subscriber stands: pending until a confirmation link is followed.
#[derive(PartialEq, Eq, Structural, Clone, Copy, Debug)]
pub enum SubscriptionStatus {
    PendingConfirmation,
    Confirmed,
}

/// One stored subscriber. Its `id` is its position in the store.
#[derive(Debug)]
pub struct Subscriber {
    pub id: u64,
    pub email: String,
    pub name: String,
    pub status: SubscriptionStatus,
}

/// A confirmation token and the subscriber it was issued to.
#[derive(Debug)]
pub struct TokenEntry {
    pub token: String,
    pub subscriber_id: u64,
}

/// Failure of the backing store.
#[derive(PartialEq, Eq, Structural, Clone, Copy, Debug)]
pub enum StoreError {
    /// The token is already bound to a subscriber.
    DuplicateToken,
    /// No identifier is left for a new subscriber.
    Exhausted,
}

/// Subscribers and the confirmation tokens issued to them.
pub struct SubscriberStore {
    subscribers: Vec<Subscriber>,
    tokens: Vec<TokenEntry>,
}

/// Emails of the confirmed subscribers among the first `n`, in store order.
pub open spec fn confirmed_emails_upto(s: Seq<Subscriber>, n: int) -> Seq<Seq<char>>
    decreases n,
{
    if n <= 0 {
        Seq::empty()
    } else if s[n - 1].status == SubscriptionStatus::Confirmed {
        confirmed_emails_upto(s, n - 1).push(s[n - 1].email@)
    } else {
        confirmed_emails_upto(s, n - 1)
    }
}

/// Every email in the prefix belongs to a confirmed subscriber of that prefix.
pub proof fn lemma_confirmed_emails_upto(s: Seq<Subscriber>, n: int, k: int)
    requires
        0 <= n <= s.len(),
        0 <= k < confirmed_emails_upto(s, n).len(),
    ensures
        exists|i: int|
            0 <= i < n && s[i].status == SubscriptionStatus::Confirmed && #[trigger] s[i].email@
                == confirmed_emails_upto(s, n)[k],
    decreases n,
{
    if n > 0 {
        let prev = confirmed_emails_upto(s, n - 1);
        if s[n - 1].status == SubscriptionStatus::Confirmed && k == prev.len() {
            assert(s[n - 1].email@ == confirmed_emails_upto(s, n)[k]);
        } else {
            lemma_confirmed_emails_upto(s, n - 1, k);
        }
    }
}

impl SubscriberStore {
    /// The stored subscribers, in order of creation.
    pub closed spec fn subscriber_seq(&self) -> Seq<Subscriber> {
        self.subscribers@
    }

    /// The issued tokens, in order of issue.
    pub closed spec fn token_seq(&self) -> Seq<TokenEntry> {
        self.tokens@
    }

    /// Identifiers are positions, emails are unique, tokens are unique and
    /// each is bound to a stored subscriber.
    pub open spec fn wf(&self) -> bool {
        let s = self.subscriber_seq();
        let t = self.token_seq();
        &&& forall|i: int| 0 <= i < s.len() ==> #[trigger] s[i].id == i
        &&& forall|i: int, j: int|
            0 <= i < j < s.len() ==> #[trigger] s[i].email@ != #[trigger] s[j].email@
        &&& forall|k: int| 0 <= k < t.len() ==> (#[trigger] t[k]).subscriber_id < s.len()
        &&& forall|k: int, l: int|
            0 <= k < l < t.len() ==> #[trigger] t[k].token@ != #[trigger] t[l].token@
    }

    /// The subscriber a token resolves to, if the token was issued.
    pub open spec fn token_owner(&self, token: Seq<char>) -> Option<u64> {
        let t = self.token_seq();
        if exists|k: int| 0 <= k < t.len() && #[trigger] t[k].token@ == token {
            let k = choose|k: int| 0 <= k < t.len() && #[trigger] t[k].token@ == token;
            Some(t[k].subscriber_id)
        } else {
            None
        }
    }

    /// The subscriber stored under an email address, if any.
    pub open spec fn email_owner(&self, email: Seq<char>) -> Option<u64> {
        let s = self.subscriber_seq();
        if exists|i: int| 0 <= i < s.len() && #[trigger] s[i].email@ == email {
            let i = choose|i: int| 0 <= i < s.len() && #[trigger] s[i].email@ == email;
            Some(s[i].id)
        } else {
            None
        }
    }

    /// Some confirmed subscriber is stored under `email`.
    pub open spec fn has_confirmed_email(&self, email: Seq<char>) -> bool {
        exists|i: int|
            0 <= i < self.subscriber_seq().len() && self.subscriber_seq()[i].status
                == SubscriptionStatus::Confirmed && #[trigger] self.subscriber_seq()[i].email@
                == email
    }

    /// Emails of all confirmed subscribers, in store order.
    pub open spec fn confirmed_emails(&self) -> Seq<Seq<char>> {
        confirmed_emails_upto(self.subscriber_seq(), self.subscriber_seq().len() as int)
    }

    /// An empty store.
    pub fn new() -> (r: SubscriberStore)
        ensures
            r.wf(),
            r.subscriber_seq().len() == 0,
            r.token_seq().len() == 0,
    {
        SubscriberStore { subscribers: Vec::new(), tokens: Vec::new() }
    }

    /// Number of stored subscribers.
    pub fn len(&self) -> (r: usize)
        ensures
            r == self.subscriber_seq().len(),
    {
        self.subscribers.len()
    }

    /// The subscriber with the given identifier.
    pub fn get(&self, id: u64) -> (r: Option<&Subscriber>)
        requires
            self.wf(),
        ensures
            id < self.subscriber_seq().len() ==> r == Some(&self.subscriber_seq()[id as int]),
            id >= self.subscriber_seq().len() ==> r is None,
    {
        if (id as u128) < (self.subscribers.len() as u128) {
            Some(&self.subscribers[id as usize])
        } else {
            None
        }
    }

    /// Looks a subscriber up by email address.
    pub fn find_by_email(&self, email: &String) -> (r: Option<u64>)
        requires
            self.wf(),
        ensures
            r == self.email_owner(email@),
    {
        let mut i: usize = 0;
        while i < self.subscribers.len()
            invariant
                self.wf(),
                i <= self.subscribers@.len(),
                forall|j: int| 0 <= j < i ==> #[trigger] self.subscribers@[j].email@ != email@,
            decreases self.subscribers@.len() - i,
        {
            if self.subscribers[i].email == *email {
                proof {
                    let s = self.subscriber_seq();
                    let w = choose|w: int| 0 <= w < s.len() && #[trigger] s[w].email@ == email@;
                    assert(w == i as int) by {
                        if w < i {
                        } else if w > i {
                            assert(s[i as int].email@ != s[w].email@);
                        }
                    }
                }
                return Some(self.subscribers[i].id);
            }
            i = i + 1;
        }
        None
    }

    /// Resolves a confirmation token to the subscriber it was issued to.
    pub fn find_by_token(&self, token: &str) -> (r: Option<u64>)
        requires
            self.wf(),
        ensures
            r == self.token_owner(token@),
    {
        let mut k: usize = 0;
        while k < self.tokens.len()
            invariant
                self.wf(),
                k <= self.tokens@.len(),
                forall|j: int| 0 <= j < k ==> #[trigger] self.tokens@[j].token@ != token@,
            decreases self.tokens@.len() - k,
        {
            if str_eq(self.tokens[k].token.as_str(), token) {
                proof {
                    let t = self.token_seq();
                    let w = choose|w: int| 0 <= w < t.len() && #[trigger] t[w].token@ == token@;
                    assert(w == k as int) by {
                        if w < k {
                        } else if w > k {
                            assert(t[k as int].token@ != t[w].token@);
                        }
                    }
                }
                return Some(self.tokens[k].subscriber_id);
            }
            k = k + 1;
        }
        None
    }

    /// Stores a new subscriber awaiting confirmation and returns its identifier.
    pub fn insert_pending(&mut self, email: String, name: String) -> (r: Result<u64, StoreError>)
        requires
            old(self).wf(),
            old(self).email_owner(email@) is None,
        ensures
            final(self).wf(),
            final(self).token_seq() == old(self).token_seq(),
            old(self).subscriber_seq().len() >= u64::MAX ==> r == Err::<u64, StoreError>(
                StoreError::Exhausted,
            ) && final(self).subscriber_seq() == old(self).subscriber_seq(),
            old(self).subscriber_seq().len() < u64::MAX ==> r == Ok::<u64, StoreError>(
                old(self).subscriber_seq().len() as u64,
            ) && final(self).subscriber_seq() == old(self).subscriber_seq().push(
                Subscriber {
                    id: old(self).subscriber_seq().len() as u64,
                    email,
                    name,
                    status: SubscriptionStatus::PendingConfirmation,
                },
            ),
    {
        let n = self.subscribers.len();
        if n as u128 >= u64::MAX as u128 {
            return Err(StoreError::Exhausted);
        }
        let id = n as u64;
        let ghost before = self.subscriber_seq();
        proof {
            assert forall|i: int| 0 <= i < before.len() implies #[trigger] before[i].email@
                != email@ by {
                if before[i].email@ == email@ {
                    assert(self.subscriber_seq()[i].email@ == email@);
                }
            }
        }
        self.subscribers.push(
            Subscriber { id, email, name, status: SubscriptionStatus::PendingConfirmation },
        );
        proof {
            let tt = self.token_seq();
            assert(tt == old(self).token_seq());
            assert forall|k: int| 0 <= k < tt.len() implies (#[trigger] tt[k]).subscriber_id
                < self.subscriber_seq().len() by {
                assert(old(self).token_seq()[k].subscriber_id < old(self).subscriber_seq().len());
            }
            let s = self.subscriber_seq();
            assert forall|i: int| 0 <= i < s.len() implies #[trigger] s[i].id == i by {
                if i < before.len() {
                    assert(s[i] == before[i]);
                }
            }
            assert forall|i: int, j: int| 0 <= i < j < s.len() implies #[trigger] s[i].email@
                != #[trigger] s[j].email@ by {
                assert(s[i] == before[i]);
                if j < before.len() {
                    assert(s[j] == before[j]);
                }
            }
        }
        Ok(id)
    }

    /// Binds a fresh token to a stored subscriber.
    pub fn issue_token(&mut self, token: String, subscriber_id: u64) -> (r: Result<(), StoreError>)
        requires
            old(self).wf(),
            subscriber_id < old(self).subscriber_seq().len(),
        ensures
            final(self).wf(),
            final(self).subscriber_seq() == old(self).subscriber_seq(),
            old(self).token_owner(token@) is Some ==> r == Err::<(), StoreError>(
                StoreError::DuplicateToken,
            ) && final(self).token_seq() == old(self).token_seq(),
            old(self).token_owner(token@) is None ==> r is Ok && final(self).token_seq()
                == old(self).token_seq().push(TokenEntry { token, subscriber_id }),
    {
        if self.find_by_token(token.as_str()).is_some() {
            return Err(StoreError::DuplicateToken);
        }
        let ghost before = self.token_seq();
        proof {
            assert forall|k: int| 0 <= k < before.len() implies #[trigger] before[k].token@
                != token@ by {
                if before[k].token@ == token@ {
                    assert(self.token_seq()[k].token@ == token@);
                }
            }
        }
        self.tokens.push(TokenEntry { token, subscriber_id });
        proof {
            let t = self.token_seq();
            assert forall|k: int| 0 <= k < t.len() implies (#[trigger] t[k]).subscriber_id
                < self.subscriber_seq().len() by {
                if k < before.len() {
                    assert(t[k] == before[k]);
                }
            }
            assert forall|k: int, l: int| 0 <= k < l < t.len() implies #[trigger] t[k].token@
                != #[trigger] t[l].token@ by {
                assert(t[k] == before[k]);
                if l < before.len() {
                    assert(t[l] == before[l]);
                }
            }
        }
        Ok(())
    }

    /// Sets a subscriber's status to confirmed where it is still pending.
    /// Returns whether a transition took place.
    pub fn mark_confirmed(&mut self, id: u64) -> (r: bool)
        requires
            old(self).wf(),
            id < old(self).subscriber_seq().len(),
        ensures
            final(self).wf(),
            final(self).token_seq() == old(self).token_seq(),
            r == (old(self).subscriber_seq()[id as int].status
                == SubscriptionStatus::PendingConfirmation),
            final(self).subscriber_seq() == old(self).subscriber_seq().update(
                id as int,
                Subscriber {
                    status: SubscriptionStatus::Confirmed,
                    ..old(self).subscriber_seq()[id as int]
                },
            ),
    {
        let n = self.subscribers.len();
        assert(id < n);
        let i = id as usize;
        let pending = self.subscribers[i].status == SubscriptionStatus::PendingConfirmation;
        let s = Subscriber {
            id: self.subscribers[i].id,
            email: self.subscribers[i].email.clone(),
            name: self.subscribers[i].name.clone(),
            status: SubscriptionStatus::Confirmed,
        };
        let ghost old_s = self.subscriber_seq();
        self.subscribers.set(i, s);
        proof {
            let new_s = self.subscriber_seq();
            let tt = self.token_seq();
            assert(tt == old(self).token_seq());
            assert forall|k: int| 0 <= k < tt.len() implies (#[trigger] tt[k]).subscriber_id
                < self.subscriber_seq().len() by {
                assert(old(self).token_seq()[k].subscriber_id < old(self).subscriber_seq().len());
            }
            assert forall|a: int| 0 <= a < new_s.len() implies #[trigger] new_s[a].id == a by {
                if a != i {
                    assert(new_s[a] == old_s[a]);
                }
            }
            assert forall|a: int, b: int| 0 <= a < b < new_s.len() implies #[trigger] new_s[a].email@
                != #[trigger] new_s[b].email@ by {
                assert(new_s[a].email@ == old_s[a].email@);
                assert(new_s[b].email@ == old_s[b].email@);
                assert(old_s[a].email@ != old_s[b].email@);
            }
        }
        pending
    }

    /// Emails of all confirmed subscribers, in store order.
    pub fn list_confirmed(&self) -> (r: Vec<String>)
        requires
            self.wf(),
        ensures
            r@.len() == self.confirmed_emails().len(),
            forall|k: int| 0 <= k < r@.len() ==> #[trigger] r@[k]@ == self.confirmed_emails()[k],
    {
        let mut out: Vec<String> = Vec::new();
        let mut i: usize = 0;
        while i < self.subscribers.len()
            invariant
                i <= self.subscribers@.len(),
                out@.len() == confirmed_emails_upto(self.subscribers@, i as int).len(),
                forall|k: int|
                    0 <= k < out@.len() ==> #[trigger] out@[k]@ == confirmed_emails_upto(
                        self.subscribers@,
                        i as int,
                    )[k],
            decreases self.subscribers@.len() - i,
        {
            if self.subscribers[i].status == SubscriptionStatus::Confirmed {
                out.push(self.subscribers[i].email.clone());
            }
            i = i + 1;
        }
        out
    }
}

} // verus!
