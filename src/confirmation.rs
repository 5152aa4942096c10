use vstd::prelude::*;

use crate::store::{Subscriber, SubscriberStore, SubscriptionStatus};

verus! {

/// Why a confirmation was refused.
#[derive(PartialEq, Eq, Structural, Clone, Copy, Debug)]
pub enum ConfirmationError {
    /// No subscriber was ever issued this token.
    TokenNotFound,
}

/// What `confirm` does: an unknown token is refused and nothing changes; a
/// known one leaves its subscriber confirmed and everything else as it was.
pub open spec fn confirm_post(
    before: SubscriberStore,
    token: Seq<char>,
    after: SubscriberStore,
    r: Result<(), ConfirmationError>,
) -> bool {
    match before.token_owner(token) {
        None => {
            &&& r == Err::<(), ConfirmationError>(ConfirmationError::TokenNotFound)
            &&& after.subscriber_seq() == before.subscriber_seq()
            &&& after.token_seq() == before.token_seq()
        },
        Some(id) => {
            &&& r is Ok
            &&& after.token_seq() == before.token_seq()
            &&& after.subscriber_seq() == before.subscriber_seq().update(
                id as int,
                Subscriber {
                    status: SubscriptionStatus::Confirmed,
                    ..before.subscriber_seq()[id as int]
                },
            )
        },
    }
}

/// Confirms the subscriber that `token` was issued to. Confirming a subscriber
/// that is already confirmed succeeds and changes nothing.
pub fn confirm(store: &mut SubscriberStore, token: &str) -> (r: Result<(), ConfirmationError>)
    requires
        old(store).wf(),
    ensures
        final(store).wf(),
        confirm_post(*old(store), token@, *final(store), r),
{
    match store.find_by_token(token) {
        None => Err(ConfirmationError::TokenNotFound),
        Some(id) => {
            store.mark_confirmed(id);
            Ok(())
        },
    }
}

/// The HTTP status a confirmation outcome is reported with.
pub fn confirmation_status_code(r: &Result<(), ConfirmationError>) -> (code: u16)
    ensures
        code == match r {
            Ok(()) => 200u16,
            Err(_) => 400u16,
        },
{
    match r {
        Ok(()) => 200,
        Err(_) => 400,
    }
}

/// Confirming twice with the same token: the second call succeeds, leaves the
/// subscriber confirmed and changes nothing, so the confirmed list after it is
/// the one after the first call, which holds the subscriber's email.
pub proof fn confirm_is_idempotent(
    s0: SubscriberStore,
    s1: SubscriberStore,
    s2: SubscriberStore,
    token: Seq<char>,
    r1: Result<(), ConfirmationError>,
    r2: Result<(), ConfirmationError>,
)
    requires
        s0.wf(),
        s0.token_owner(token) is Some,
        confirm_post(s0, token, s1, r1),
        confirm_post(s1, token, s2, r2),
    ensures
        r1 is Ok,
        r2 is Ok,
        s2.subscriber_seq() == s1.subscriber_seq(),
        s2.token_seq() == s1.token_seq(),
        s2.subscriber_seq()[s0.token_owner(token)->0 as int].status
            == SubscriptionStatus::Confirmed,
        s2.confirmed_emails() == s1.confirmed_emails(),
        s1.has_confirmed_email(s0.subscriber_seq()[s0.token_owner(token)->0 as int].email@),
{
    let id = s0.token_owner(token)->0 as int;
    let t = s0.token_seq();
    let k = choose|k: int| 0 <= k < t.len() && #[trigger] t[k].token@ == token;
    assert(t[k].subscriber_id < s0.subscriber_seq().len());
    assert(s1.subscriber_seq()[id].email@ == s0.subscriber_seq()[id].email@);
    assert(s1.token_owner(token) == s0.token_owner(token));
    assert(s2.subscriber_seq() =~= s1.subscriber_seq());
}

/// A token that was never issued is refused and no subscriber changes.
pub proof fn unknown_token_is_rejected(
    s0: SubscriberStore,
    s1: SubscriberStore,
    token: Seq<char>,
    r: Result<(), ConfirmationError>,
)
    requires
        s0.wf(),
        s0.token_owner(token) is None,
        confirm_post(s0, token, s1, r),
    ensures
        r == Err::<(), ConfirmationError>(ConfirmationError::TokenNotFound),
        s1.subscriber_seq() == s0.subscriber_seq(),
        s1.token_seq() == s0.token_seq(),
{
}

} // verus!
