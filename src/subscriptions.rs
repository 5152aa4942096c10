use vstd::prelude::*;

use crate::domain::{is_valid_email, is_valid_name, valid_email, valid_name};
use crate::store::{StoreError, Subscriber, SubscriberStore, SubscriptionStatus, TokenEntry};

verus! {

/// The fields of a subscription request.
pub struct FormData {
    pub email: String,
    pub name: String,
}

/// Why a subscription request was not carried out.
#[derive(PartialEq, Eq, Structural, Clone, Copy, Debug)]
pub enum SubscriptionError {
    /// The email or the name is malformed.
    ValidationError,
    /// The store refused the change.
    StorageError(StoreError),
    /// The confirmation email could not be sent; the subscriber stays stored.
    DeliveryError,
}

/// An outgoing email.
pub struct Email {
    pub recipient: String,
    pub subject: String,
    pub html_body: String,
    pub text_body: String,
}

/// The link that confirms the subscription holding `token`.
pub open spec fn confirmation_link(base_url: Seq<char>, token: Seq<char>) -> Seq<char> {
    base_url + "/subscriptions/confirm?subscription_token="@ + token
}

/// The HTML body of a confirmation email.
pub open spec fn confirmation_html(link: Seq<char>) -> Seq<char> {
    "Welcome to our newsletter!<br />Click <a href=\""@ + link
        + "\">here</a> to confirm your subscription."@
}

/// The plain-text body of a confirmation email.
pub open spec fn confirmation_text(link: Seq<char>) -> Seq<char> {
    "Welcome to our newsletter!\nVisit "@ + link + " to confirm your subscription."@
}

/// The email that asks `recipient` to follow the link for `token`.
pub open spec fn is_confirmation_email(
    mail: Email,
    recipient: Seq<char>,
    base_url: Seq<char>,
    token: Seq<char>,
) -> bool {
    let link = confirmation_link(base_url, token);
    &&& mail.recipient@ == recipient
    &&& mail.subject@ == "Welcome!"@
    &&& mail.html_body@ == confirmation_html(link)
    &&& mail.text_body@ == confirmation_text(link)
}

/// The link a subscriber follows to confirm, carrying its token.
pub fn build_confirmation_link(base_url: &str, token: &str) -> (r: String)
    ensures
        r@ == confirmation_link(base_url@, token@),
{
    let mut link = String::from_str(base_url);
    link.append("/subscriptions/confirm?subscription_token=");
    link.append(token);
    link
}

/// The confirmation email for `recipient`.
pub fn confirmation_email(recipient: &str, base_url: &str, token: &str) -> (r: Email)
    ensures
        is_confirmation_email(r, recipient@, base_url@, token@),
{
    let link = build_confirmation_link(base_url, token);
    let mut html = String::from_str("Welcome to our newsletter!<br />Click <a href=\"");
    html.append(link.as_str());
    html.append("\">here</a> to confirm your subscription.");
    let mut text = String::from_str("Welcome to our newsletter!\nVisit ");
    text.append(link.as_str());
    text.append(" to confirm your subscription.");
    Email {
        recipient: String::from_str(recipient),
        subject: String::from_str("Welcome!"),
        html_body: html,
        text_body: text,
    }
}

/// The subscriber a new token is bound to: the one already stored under the
/// email, or the one about to be added.
pub open spec fn subscription_target(store: SubscriberStore, email: Seq<char>) -> u64 {
    match store.email_owner(email) {
        Some(id) => id,
        None => store.subscriber_seq().len() as u64,
    }
}

/// What `subscribe` does to the store and what it returns.
pub open spec fn subscribe_post(
    before: SubscriberStore,
    form: FormData,
    token: String,
    base_url: Seq<char>,
    after: SubscriberStore,
    r: Result<Email, SubscriptionError>,
) -> bool {
    let valid = valid_email(form.email@) && valid_name(form.name@);
    &&& after.wf()
    &&& r is Err ==> after.subscriber_seq() == before.subscriber_seq() && after.token_seq()
        == before.token_seq()
    &&& (r == Err::<Email, SubscriptionError>(SubscriptionError::ValidationError)) <==> !valid
    &&& (r == Err::<Email, SubscriptionError>(
        SubscriptionError::StorageError(StoreError::DuplicateToken),
    )) <==> (valid && before.token_owner(token@) is Some)
    &&& (r == Err::<Email, SubscriptionError>(
        SubscriptionError::StorageError(StoreError::Exhausted),
    )) <==> (valid && before.token_owner(token@) is None && before.email_owner(form.email@) is None
        && before.subscriber_seq().len() >= u64::MAX)
    &&& r != Err::<Email, SubscriptionError>(SubscriptionError::DeliveryError)
    &&& r matches Ok(mail) ==> {
        let id = subscription_target(before, form.email@);
        &&& is_confirmation_email(mail, form.email@, base_url, token@)
        &&& after.token_seq() == before.token_seq().push(TokenEntry { token, subscriber_id: id })
        &&& before.email_owner(form.email@) is Some ==> after.subscriber_seq()
            == before.subscriber_seq()
        &&& before.email_owner(form.email@) is None ==> after.subscriber_seq()
            == before.subscriber_seq().push(
            Subscriber {
                id,
                email: form.email,
                name: form.name,
                status: SubscriptionStatus::PendingConfirmation,
            },
        )
    }
}

/// Registers `form` as a pending subscriber (or reuses the subscriber already
/// stored under its email), binds `token` to it, and returns the confirmation
/// email to send. On any error the store is left as it was.
pub fn subscribe(store: &mut SubscriberStore, form: FormData, token: String, base_url: &str) -> (r:
    Result<Email, SubscriptionError>)
    requires
        old(store).wf(),
    ensures
        final(store).wf(),
        subscribe_post(*old(store), form, token, base_url@, *final(store), r),
{
    if !(is_valid_email(form.email.as_str()) && is_valid_name(form.name.as_str())) {
        return Err(SubscriptionError::ValidationError);
    }
    if store.find_by_token(token.as_str()).is_some() {
        return Err(SubscriptionError::StorageError(StoreError::DuplicateToken));
    }
    let mail = confirmation_email(form.email.as_str(), base_url, token.as_str());
    let id = match store.find_by_email(&form.email) {
        Some(id) => id,
        None => match store.insert_pending(form.email, form.name) {
            Ok(id) => id,
            Err(e) => {
                return Err(SubscriptionError::StorageError(e));
            },
        },
    };
    let issued = store.issue_token(token, id);
    match issued {
        Ok(()) => Ok(mail),
        Err(e) => Err(SubscriptionError::StorageError(e)),
    }
}

/// The HTTP status a subscription outcome is reported with.
pub fn subscription_status_code(r: &Result<(), SubscriptionError>) -> (code: u16)
    ensures
        code == match r {
            Ok(()) => 200u16,
            Err(SubscriptionError::ValidationError) => 400u16,
            Err(_) => 500u16,
        },
{
    match r {
        Ok(()) => 200,
        Err(SubscriptionError::ValidationError) => 400,
        Err(_) => 500,
    }
}

/// A valid subscription of a new email, with a fresh token, stores exactly one
/// subscriber under that email, pending confirmation, and yields exactly one
/// confirmation email, addressed to it.
pub proof fn subscribe_stores_one_pending_subscriber(
    s0: SubscriberStore,
    s1: SubscriberStore,
    form: FormData,
    token: String,
    base_url: Seq<char>,
    r: Result<Email, SubscriptionError>,
)
    requires
        s0.wf(),
        valid_email(form.email@),
        valid_name(form.name@),
        s0.email_owner(form.email@) is None,
        s0.token_owner(token@) is None,
        s0.subscriber_seq().len() < u64::MAX,
        subscribe_post(s0, form, token, base_url, s1, r),
    ensures
        r matches Ok(mail) && mail.recipient@ == form.email@,
        exists|i: int|
            0 <= i < s1.subscriber_seq().len() && #[trigger] s1.subscriber_seq()[i].email@
                == form.email@ && s1.subscriber_seq()[i].status
                == SubscriptionStatus::PendingConfirmation && forall|j: int|
                0 <= j < s1.subscriber_seq().len() && #[trigger] s1.subscriber_seq()[j].email@
                    == form.email@ ==> j == i,
{
    match r {
        Err(SubscriptionError::StorageError(StoreError::DuplicateToken)) => {},
        Err(SubscriptionError::StorageError(StoreError::Exhausted)) => {},
        _ => {},
    }
    assert(r is Ok);
    let n = s0.subscriber_seq().len() as int;
    let s = s1.subscriber_seq();
    assert(s.len() == n + 1);
    assert(s[n].email@ == form.email@);
    assert forall|j: int| 0 <= j < s.len() && #[trigger] s[j].email@ == form.email@ implies j
        == n by {
        if j < n {
            assert(s0.subscriber_seq()[j].email@ == form.email@);
        }
    }
}

} // verus!
