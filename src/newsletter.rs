use vstd::prelude::*;

use crate::domain::{is_valid_email, str_eq, valid_email};
use crate::authentication::{
    auth_error_reply, auth_outcome, authentication_outcome, is_auth_error_reply, session_gate,
    AuthError,
};
use crate::http::{is_redirect_to, see_other, Reply};
use crate::store::{confirmed_emails_upto, lemma_confirmed_emails_upto, SubscriberStore, SubscriptionStatus};

verus! {

/// The content of one newsletter issue, as submitted by an administrator.
pub struct FormData {
    pub title: String,
    pub text_content: String,
    pub html_content: String,
}

/// A confirmed subscriber whose stored email is well-formed.
pub struct ConfirmedSubscriber {
    pub email: String,
}

/// A confirmed subscriber whose stored email fails validation.
pub struct InvalidStoredEmail {
    pub email: String,
}

/// Totals of one publication.
#[derive(PartialEq, Eq, Structural, Clone, Copy, Debug)]
pub struct PublishSummary {
    pub delivered: u64,
    pub skipped_invalid: u64,
    pub failed: u64,
}

/// The addresses an issue is to be sent to, one send each, and how many
/// confirmed subscribers were left out for an invalid stored email.
pub struct DeliveryPlan {
    pub recipients: Vec<String>,
    pub skipped_invalid: u64,
}

/// What a publish request leads to.
pub enum PublishStep {
    /// The same issue was published before: nothing is sent again.
    AlreadyPublished(PublishSummary),
    /// Send the issue to each recipient of the plan.
    Deliver(DeliveryPlan),
}

/// One send of an issue: to whom, and whether the transport accepted it.
pub struct Attempt {
    pub recipient: String,
    pub ok: bool,
}

/// The progress of one issue, keyed by its content: the sends made so far,
/// and, once the fan-out is over, its totals.
pub struct PublishRecord {
    pub title: String,
    pub text_content: String,
    pub html_content: String,
    pub attempts: Vec<Attempt>,
    pub complete: bool,
    pub summary: PublishSummary,
}

/// The well-formed addresses among the first `n` of `emails`, in order.
pub open spec fn valid_upto(emails: Seq<Seq<char>>, n: int) -> Seq<Seq<char>>
    decreases n,
{
    if n <= 0 {
        Seq::empty()
    } else if valid_email(emails[n - 1]) {
        valid_upto(emails, n - 1).push(emails[n - 1])
    } else {
        valid_upto(emails, n - 1)
    }
}

/// The addresses an issue goes to: the well-formed emails of the confirmed
/// subscribers.
pub open spec fn recipients_of(store: SubscriberStore) -> Seq<Seq<char>> {
    valid_upto(store.confirmed_emails(), store.confirmed_emails().len() as int)
}

/// Number of confirmed subscribers skipped for an invalid stored email.
pub open spec fn skipped_of(store: SubscriberStore) -> nat {
    (store.confirmed_emails().len() - recipients_of(store).len()) as nat
}

/// `plan` sends to exactly the recipients of `store`, in store order.
pub open spec fn is_full_plan_for(plan: DeliveryPlan, store: SubscriberStore) -> bool {
    &&& plan.recipients@.len() == recipients_of(store).len()
    &&& forall|k: int|
        0 <= k < plan.recipients@.len() ==> #[trigger] plan.recipients@[k]@ == recipients_of(
            store,
        )[k]
    &&& plan.skipped_invalid == skipped_of(store)
}

/// Number of accepted sends among the first `n` of `s`.
pub open spec fn count_ok(s: Seq<Attempt>, n: int) -> nat
    decreases n,
{
    if n <= 0 {
        0
    } else if s[n - 1].ok {
        count_ok(s, n - 1) + 1
    } else {
        count_ok(s, n - 1)
    }
}

/// The addresses already sent to.
pub open spec fn attempted(attempts: Seq<Attempt>) -> Seq<Seq<char>> {
    attempts.map_values(|a: Attempt| a.recipient@)
}

/// The first `n` of `rs`, leaving out those in `done`, in order.
pub open spec fn remaining_upto(rs: Seq<Seq<char>>, done: Seq<Seq<char>>, n: int) -> Seq<
    Seq<char>,
>
    decreases n,
{
    if n <= 0 {
        Seq::empty()
    } else if done.contains(rs[n - 1]) {
        remaining_upto(rs, done, n - 1)
    } else {
        remaining_upto(rs, done, n - 1).push(rs[n - 1])
    }
}

/// `plan` sends to the recipients of `store` not in `done`, in store order.
pub open spec fn is_plan_for(plan: DeliveryPlan, store: SubscriberStore, done: Seq<Seq<char>>) -> bool {
    let rest = remaining_upto(recipients_of(store), done, recipients_of(store).len() as int);
    &&& plan.recipients@.len() == rest.len()
    &&& forall|k: int| 0 <= k < plan.recipients@.len() ==> #[trigger] plan.recipients@[k]@ == rest[k]
    &&& plan.skipped_invalid == skipped_of(store)
}

proof fn lemma_valid_upto_len(emails: Seq<Seq<char>>, n: int)
    requires
        0 <= n <= emails.len(),
    ensures
        valid_upto(emails, n).len() <= n,
    decreases n,
{
    if n > 0 {
        lemma_valid_upto_len(emails, n - 1);
    }
}

proof fn lemma_count_ok_len(s: Seq<Attempt>, n: int)
    requires
        0 <= n <= s.len(),
    ensures
        count_ok(s, n) <= n,
    decreases n,
{
    if n > 0 {
        lemma_count_ok_len(s, n - 1);
    }
}

/// Every address left is one of `rs` and none of `done`.
proof fn lemma_remaining_member(rs: Seq<Seq<char>>, done: Seq<Seq<char>>, n: int, k: int)
    requires
        0 <= n <= rs.len(),
        0 <= k < remaining_upto(rs, done, n).len(),
    ensures
        !done.contains(remaining_upto(rs, done, n)[k]),
        exists|j: int| 0 <= j < n && #[trigger] rs[j] == remaining_upto(rs, done, n)[k],
    decreases n,
{
    if n > 0 {
        let prev = remaining_upto(rs, done, n - 1);
        if !done.contains(rs[n - 1]) && k == prev.len() {
            assert(rs[n - 1] == remaining_upto(rs, done, n)[k]);
        } else {
            lemma_remaining_member(rs, done, n - 1, k);
        }
    }
}

/// With nothing done, nothing is left out.
proof fn lemma_remaining_none_done(rs: Seq<Seq<char>>, n: int)
    requires
        0 <= n <= rs.len(),
    ensures
        remaining_upto(rs, Seq::empty(), n) == rs.subrange(0, n),
    decreases n,
{
    if n > 0 {
        lemma_remaining_none_done(rs, n - 1);
        assert(rs.subrange(0, n) =~= rs.subrange(0, n - 1).push(rs[n - 1]));
    } else {
        assert(rs.subrange(0, 0) =~= Seq::<Seq<char>>::empty());
    }
}

/// Every kept address is one of the inputs.
proof fn lemma_valid_upto_member(emails: Seq<Seq<char>>, n: int, k: int)
    requires
        0 <= n <= emails.len(),
        0 <= k < valid_upto(emails, n).len(),
    ensures
        exists|j: int| 0 <= j < n && #[trigger] emails[j] == valid_upto(emails, n)[k],
    decreases n,
{
    if n > 0 {
        let prev = valid_upto(emails, n - 1);
        if valid_email(emails[n - 1]) && k == prev.len() {
            assert(emails[n - 1] == valid_upto(emails, n)[k]);
        } else {
            lemma_valid_upto_member(emails, n - 1, k);
        }
    }
}

/// Where every address is well-formed, all are kept.
proof fn lemma_valid_upto_all(emails: Seq<Seq<char>>, n: int)
    requires
        0 <= n <= emails.len(),
        forall|j: int| 0 <= j < emails.len() ==> valid_email(#[trigger] emails[j]),
    ensures
        valid_upto(emails, n) == emails.subrange(0, n),
    decreases n,
{
    if n > 0 {
        lemma_valid_upto_all(emails, n - 1);
        assert(emails.subrange(0, n) =~= emails.subrange(0, n - 1).push(emails[n - 1]));
    } else {
        assert(emails.subrange(0, 0) =~= Seq::<Seq<char>>::empty());
    }
}

/// The confirmed subscribers, each with its stored email re-validated.
pub fn get_confirmed_subscribers(store: &SubscriberStore) -> (r: Vec<
    Result<ConfirmedSubscriber, InvalidStoredEmail>,
>)
    requires
        store.wf(),
    ensures
        r@.len() == store.confirmed_emails().len(),
        forall|k: int|
            0 <= k < r@.len() ==> match #[trigger] r@[k] {
                Ok(c) => c.email@ == store.confirmed_emails()[k] && valid_email(c.email@),
                Err(e) => e.email@ == store.confirmed_emails()[k] && !valid_email(e.email@),
            },
{
    let emails = store.list_confirmed();
    let mut out: Vec<Result<ConfirmedSubscriber, InvalidStoredEmail>> = Vec::new();
    let mut i: usize = 0;
    while i < emails.len()
        invariant
            emails@.len() == store.confirmed_emails().len(),
            forall|k: int|
                0 <= k < emails@.len() ==> #[trigger] emails@[k]@ == store.confirmed_emails()[k],
            i <= emails@.len(),
            out@.len() == i,
            forall|k: int|
                0 <= k < i ==> match #[trigger] out@[k] {
                    Ok(c) => c.email@ == store.confirmed_emails()[k] && valid_email(c.email@),
                    Err(e) => e.email@ == store.confirmed_emails()[k] && !valid_email(e.email@),
                },
        decreases emails@.len() - i,
    {
        let email = emails[i].clone();
        if is_valid_email(email.as_str()) {
            out.push(Ok(ConfirmedSubscriber { email }));
        } else {
            out.push(Err(InvalidStoredEmail { email }));
        }
        i = i + 1;
    }
    out
}

/// The plan for sending an issue to `store`'s confirmed subscribers.
pub fn delivery_plan(store: &SubscriberStore) -> (r: DeliveryPlan)
    requires
        store.wf(),
    ensures
        is_full_plan_for(r, *store),
{
    let subscribers = get_confirmed_subscribers(store);
    let ghost emails = store.confirmed_emails();
    let mut recipients: Vec<String> = Vec::new();
    let mut skipped: u64 = 0;
    let mut i: usize = 0;
    while i < subscribers.len()
        invariant
            store.wf(),
            emails == store.confirmed_emails(),
            subscribers@.len() == emails.len(),
            forall|k: int|
                0 <= k < subscribers@.len() ==> match #[trigger] subscribers@[k] {
                    Ok(c) => c.email@ == emails[k] && valid_email(c.email@),
                    Err(e) => e.email@ == emails[k] && !valid_email(e.email@),
                },
            i <= subscribers@.len(),
            recipients@.len() == valid_upto(emails, i as int).len(),
            forall|k: int|
                0 <= k < recipients@.len() ==> #[trigger] recipients@[k]@ == valid_upto(
                    emails,
                    i as int,
                )[k],
            skipped == i - valid_upto(emails, i as int).len(),
        decreases subscribers@.len() - i,
    {
        proof {
            lemma_valid_upto_len(emails, i as int);
        }
        match &subscribers[i] {
            Ok(c) => {
                recipients.push(c.email.clone());
            },
            Err(_) => {
                skipped = skipped + 1;
            },
        }
        i = i + 1;
    }
    DeliveryPlan { recipients, skipped_invalid: skipped }
}
/// Whether `email` is among the addresses already sent to.
fn was_attempted(attempts: &Vec<Attempt>, email: &String) -> (r: bool)
    ensures
        r == attempted(attempts@).contains(email@),
{
    let mut i: usize = 0;
    while i < attempts.len()
        invariant
            i <= attempts@.len(),
            forall|j: int| 0 <= j < i ==> #[trigger] attempts@[j].recipient@ != email@,
        decreases attempts@.len() - i,
    {
        if attempts[i].recipient == *email {
            assert(attempted(attempts@)[i as int] == email@);
            return true;
        }
        i = i + 1;
    }
    proof {
        if attempted(attempts@).contains(email@) {
            let j = choose|j: int|
                0 <= j < attempted(attempts@).len() && attempted(attempts@)[j] == email@;
            assert(attempts@[j].recipient@ == email@);
        }
    }
    false
}

/// The plan for sending an issue to `store`'s confirmed subscribers, leaving
/// out the addresses already sent to.
pub fn remaining_plan(store: &SubscriberStore, attempts: &Vec<Attempt>) -> (r: DeliveryPlan)
    requires
        store.wf(),
    ensures
        is_plan_for(r, *store, attempted(attempts@)),
{
    let full = delivery_plan(store);
    let ghost rs = recipients_of(*store);
    let ghost done = attempted(attempts@);
    let mut recipients: Vec<String> = Vec::new();
    let mut i: usize = 0;
    while i < full.recipients.len()
        invariant
            is_full_plan_for(full, *store),
            rs == recipients_of(*store),
            done == attempted(attempts@),
            i <= full.recipients@.len(),
            recipients@.len() == remaining_upto(rs, done, i as int).len(),
            forall|k: int|
                0 <= k < recipients@.len() ==> #[trigger] recipients@[k]@ == remaining_upto(
                    rs,
                    done,
                    i as int,
                )[k],
        decreases full.recipients@.len() - i,
    {
        assert(full.recipients@[i as int]@ == rs[i as int]);
        if !was_attempted(attempts, &full.recipients[i]) {
            recipients.push(full.recipients[i].clone());
        }
        i = i + 1;
    }
    DeliveryPlan { recipients, skipped_invalid: full.skipped_invalid }
}

/// Publications made so far, one record per distinct issue content. The
/// content of an issue is its idempotency key: submitting the same title and
/// bodies again sends nothing once the issue is complete, and, after an
/// interrupted fan-out, sends only to the addresses not reached yet.
pub struct NewsletterPublisher {
    records: Vec<PublishRecord>,
}

/// `record` holds the same issue content as `form`.
pub open spec fn same_issue(record: PublishRecord, form: FormData) -> bool {
    &&& record.title@ == form.title@
    &&& record.text_content@ == form.text_content@
    &&& record.html_content@ == form.html_content@
}

/// The sends recorded for an issue, none if it has no record.
pub open spec fn attempts_of(prior: Option<PublishRecord>) -> Seq<Attempt> {
    match prior {
        Some(rec) => rec.attempts@,
        None => Seq::empty(),
    }
}

/// The totals of a fan-out that made `attempts`.
pub open spec fn summary_of(attempts: Seq<Attempt>, skipped_invalid: u64) -> PublishSummary {
    PublishSummary {
        delivered: count_ok(attempts, attempts.len() as int) as u64,
        skipped_invalid,
        failed: (attempts.len() - count_ok(attempts, attempts.len() as int)) as u64,
    }
}

/// The issue of `form` has a complete record.
pub open spec fn is_complete(p: NewsletterPublisher, form: FormData) -> bool {
    p.prior(form) is Some && p.prior(form)->0.complete
}

/// `after` differs from `before` at most in the record of `form`'s issue,
/// which is added if it was missing.
pub open spec fn others_unchanged(
    before: NewsletterPublisher,
    after: NewsletterPublisher,
    form: FormData,
) -> bool {
    &&& after.record_seq().len() == before.record_seq().len() + (if before.prior(form) is None {
        1int
    } else {
        0int
    })
    &&& forall|j: int|
        0 <= j < before.record_seq().len() && !same_issue(#[trigger] before.record_seq()[j], form)
            ==> after.record_seq()[j] == before.record_seq()[j]
}

/// What `publish_newsletter` decides.
pub open spec fn publish_post(
    p: NewsletterPublisher,
    store: SubscriberStore,
    form: FormData,
    r: PublishStep,
) -> bool {
    if is_complete(p, form) {
        r == PublishStep::AlreadyPublished(p.prior(form)->0.summary)
    } else {
        r matches PublishStep::Deliver(plan) && is_plan_for(
            plan,
            store,
            attempted(attempts_of(p.prior(form))),
        )
    }
}

/// What `record_send` does.
pub open spec fn record_send_post(
    before: NewsletterPublisher,
    form: FormData,
    recipient: Seq<char>,
    ok: bool,
    after: NewsletterPublisher,
) -> bool {
    &&& after.wf()
    &&& is_complete(before, form) ==> after.record_seq() == before.record_seq()
    &&& !is_complete(before, form) ==> {
        &&& after.prior(form) is Some
        &&& !after.prior(form)->0.complete
        &&& attempted(after.prior(form)->0.attempts@) == attempted(
            attempts_of(before.prior(form)),
        ).push(recipient)
        &&& after.prior(form)->0.attempts@.last().ok == ok
        &&& after.prior(form)->0.attempts@.drop_last() == attempts_of(before.prior(form))
        &&& others_unchanged(before, after, form)
    }
}

/// What `finish_publication` does.
pub open spec fn finish_post(
    before: NewsletterPublisher,
    form: FormData,
    skipped_invalid: u64,
    after: NewsletterPublisher,
    r: PublishSummary,
) -> bool {
    &&& after.wf()
    &&& is_complete(before, form) ==> r == before.prior(form)->0.summary && after.record_seq()
        == before.record_seq()
    &&& !is_complete(before, form) ==> {
        &&& r == summary_of(attempts_of(before.prior(form)), skipped_invalid)
        &&& after.prior(form) is Some
        &&& after.prior(form)->0.complete
        &&& after.prior(form)->0.summary == r
        &&& after.prior(form)->0.attempts@ == attempts_of(before.prior(form))
        &&& others_unchanged(before, after, form)
    }
}

impl NewsletterPublisher {
    /// The records, oldest first.
    pub closed spec fn record_seq(&self) -> Seq<PublishRecord> {
        self.records@
    }

    /// No two records hold the same issue content.
    pub open spec fn wf(&self) -> bool {
        forall|i: int, j: int|
            0 <= i < j < self.record_seq().len() ==> !(#[trigger] self.record_seq()[i].title@
                == #[trigger] self.record_seq()[j].title@ && self.record_seq()[i].text_content@
                == self.record_seq()[j].text_content@ && self.record_seq()[i].html_content@
                == self.record_seq()[j].html_content@)
    }

    /// The record of the issue of `form`, if any.
    pub open spec fn prior(&self, form: FormData) -> Option<PublishRecord> {
        let r = self.record_seq();
        if exists|k: int| 0 <= k < r.len() && same_issue(#[trigger] r[k], form) {
            let k = choose|k: int| 0 <= k < r.len() && same_issue(#[trigger] r[k], form);
            Some(r[k])
        } else {
            None
        }
    }

    /// A publisher that has published nothing.
    pub fn new() -> (r: NewsletterPublisher)
        ensures
            r.wf(),
            r.record_seq().len() == 0,
    {
        NewsletterPublisher { records: Vec::new() }
    }

    proof fn lemma_prior_at(&self, form: FormData, k: int)
        requires
            self.wf(),
            0 <= k < self.record_seq().len(),
            same_issue(self.record_seq()[k], form),
        ensures
            self.prior(form) == Some(self.record_seq()[k]),
    {
        let r = self.record_seq();
        let w = choose|w: int| 0 <= w < r.len() && same_issue(#[trigger] r[w], form);
        if w < k {
            assert(!(r[w].title@ == r[k].title@ && r[w].text_content@ == r[k].text_content@
                && r[w].html_content@ == r[k].html_content@));
        } else if w > k {
            assert(!(r[k].title@ == r[w].title@ && r[k].text_content@ == r[w].text_content@
                && r[k].html_content@ == r[w].html_content@));
        }
    }

    fn find(&self, form: &FormData) -> (r: Option<usize>)
        requires
            self.wf(),
        ensures
            r is None <==> self.prior(*form) is None,
            r matches Some(k) ==> k < self.record_seq().len() && self.prior(*form) == Some(
                self.record_seq()[k as int],
            ),
    {
        let mut k: usize = 0;
        while k < self.records.len()
            invariant
                self.wf(),
                k <= self.records@.len(),
                forall|j: int| 0 <= j < k ==> !same_issue(#[trigger] self.records@[j], *form),
            decreases self.records@.len() - k,
        {
            let rec = &self.records[k];
            if str_eq(rec.title.as_str(), form.title.as_str()) && str_eq(
                rec.text_content.as_str(),
                form.text_content.as_str(),
            ) && str_eq(rec.html_content.as_str(), form.html_content.as_str()) {
                proof {
                    self.lemma_prior_at(*form, k as int);
                }
                return Some(k);
            }
            k = k + 1;
        }
        proof {
            let r = self.record_seq();
            assert forall|j: int| 0 <= j < r.len() implies !same_issue(#[trigger] r[j], *form) by {
                assert(!same_issue(self.records@[j], *form));
            }
        }
        None
    }

    /// Decides what a publish request does: a complete issue is not sent
    /// again; otherwise it is to be sent, once each, to every confirmed
    /// subscriber with a well-formed email that it was not yet sent to.
    pub fn publish_newsletter(&self, store: &SubscriberStore, form: &FormData) -> (r: PublishStep)
        requires
            self.wf(),
            store.wf(),
        ensures
            publish_post(*self, *store, *form, r),
    {
        match self.find(form) {
            Some(k) => {
                if self.records[k].complete {
                    PublishStep::AlreadyPublished(self.records[k].summary)
                } else {
                    PublishStep::Deliver(remaining_plan(store, &self.records[k].attempts))
                }
            },
            None => {
                let none: Vec<Attempt> = Vec::new();
                assert(attempted(none@) =~= Seq::<Seq<char>>::empty());
                PublishStep::Deliver(remaining_plan(store, &none))
            },
        }
    }

    /// Adds a record for `form`'s issue, with no sends, where it has none.
    fn record_index(&mut self, form: &FormData) -> (k: usize)
        requires
            old(self).wf(),
        ensures
            final(self).wf(),
            k < final(self).record_seq().len(),
            same_issue(final(self).record_seq()[k as int], *form),
            final(self).prior(*form) == Some(final(self).record_seq()[k as int]),
            old(self).prior(*form) matches Some(rec) ==> final(self).record_seq()
                == old(self).record_seq() && rec == final(self).record_seq()[k as int],
            old(self).prior(*form) is None ==> final(self).record_seq()
                == old(self).record_seq().push(final(self).record_seq()[k as int]),
            old(self).prior(*form) is None ==> final(self).record_seq()[k as int].attempts@.len()
                == 0,
            old(self).prior(*form) is None ==> !final(self).record_seq()[k as int].complete,
    {
        match self.find(form) {
            Some(k) => {
                proof {
                    assert(same_issue(self.record_seq()[k as int], *form)) by {
                        let r = self.record_seq();
                        let w = choose|w: int| 0 <= w < r.len() && same_issue(#[trigger] r[w], *form);
                    }
                }
                k
            },
            None => {
                let ghost before = self.record_seq();
                proof {
                    assert forall|j: int| 0 <= j < before.len() implies !same_issue(
                        #[trigger] before[j],
                        *form,
                    ) by {
                        if same_issue(before[j], *form) {
                            assert(self.prior(*form) is Some);
                        }
                    }
                }
                self.records.push(
                    PublishRecord {
                        title: form.title.clone(),
                        text_content: form.text_content.clone(),
                        html_content: form.html_content.clone(),
                        attempts: Vec::new(),
                        complete: false,
                        summary: PublishSummary { delivered: 0, skipped_invalid: 0, failed: 0 },
                    },
                );
                let k = self.records.len() - 1;
                proof {
                    let r = self.record_seq();
                    assert forall|a: int, b: int| 0 <= a < b < r.len() implies !(
                    #[trigger] r[a].title@ == #[trigger] r[b].title@ && r[a].text_content@
                        == r[b].text_content@ && r[a].html_content@ == r[b].html_content@) by {
                        assert(r[a] == before[a]);
                        if b < before.len() {
                            assert(r[b] == before[b]);
                        } else {
                            assert(!same_issue(before[a], *form));
                        }
                    }
                    self.lemma_prior_at(*form, k as int);
                }
                k
            },
        }
    }

    /// Records one send of `form`'s issue to `recipient`, and whether it was
    /// accepted. Nothing changes once the issue is complete.
    pub fn record_send(&mut self, form: &FormData, recipient: String, ok: bool)
        requires
            old(self).wf(),
        ensures
            record_send_post(*old(self), *form, recipient@, ok, *final(self)),
    {
        if let Some(k) = self.find(form) {
            if self.records[k].complete {
                return;
            }
        }
        let ghost before = self.record_seq();
        let ghost old_prior = self.prior(*form);
        let k = self.record_index(form);
        let ghost mid = self.record_seq();
        let mut rec = self.records.remove(k);
        let ghost old_attempts = rec.attempts@;
        let ghost r = recipient@;
        rec.attempts.push(Attempt { recipient, ok });
        let ghost new_rec = rec;
        self.records.insert(k, rec);
        proof {
            assert(self.record_seq() =~= mid.update(k as int, new_rec));
            let s = self.record_seq();
            assert forall|a: int, b: int| 0 <= a < b < s.len() implies !(
            #[trigger] s[a].title@ == #[trigger] s[b].title@ && s[a].text_content@
                == s[b].text_content@ && s[a].html_content@ == s[b].html_content@) by {
                assert(!(mid[a].title@ == mid[b].title@ && mid[a].text_content@
                    == mid[b].text_content@ && mid[a].html_content@ == mid[b].html_content@));
            }
            self.lemma_prior_at(*form, k as int);
            assert(old_attempts == attempts_of(old_prior));
            assert(attempted(new_rec.attempts@) =~= attempted(old_attempts).push(r));
            assert(new_rec.attempts@.drop_last() =~= old_attempts);
            assert forall|j: int|
                0 <= j < before.len() && !same_issue(#[trigger] before[j], *form) implies s[j]
                == before[j] by {
                assert(j != k);
                assert(mid[j] == before[j]);
            }
        }
    }

    /// Closes the fan-out of `form`'s issue and returns its totals; the issue
    /// is then complete. Where it was complete already, the recorded totals
    /// stand and nothing changes.
    pub fn finish_publication(&mut self, form: &FormData, skipped_invalid: u64) -> (r:
        PublishSummary)
        requires
            old(self).wf(),
        ensures
            finish_post(*old(self), *form, skipped_invalid, *final(self), r),
    {
        if let Some(k) = self.find(form) {
            if self.records[k].complete {
                return self.records[k].summary;
            }
        }
        let ghost before = self.record_seq();
        let ghost old_prior = self.prior(*form);
        let k = self.record_index(form);
        let ghost mid = self.record_seq();
        let mut rec = self.records.remove(k);
        let ghost old_attempts = rec.attempts@;
        assert(old_attempts =~= attempts_of(old_prior));
        let mut delivered: u64 = 0;
        let mut i: usize = 0;
        while i < rec.attempts.len()
            invariant
                i <= rec.attempts@.len(),
                delivered == count_ok(rec.attempts@, i as int),
            decreases rec.attempts@.len() - i,
        {
            proof {
                lemma_count_ok_len(rec.attempts@, i as int);
            }
            if rec.attempts[i].ok {
                delivered = delivered + 1;
            }
            i = i + 1;
        }
        proof {
            lemma_count_ok_len(rec.attempts@, rec.attempts@.len() as int);
        }
        let failed = (rec.attempts.len() as u64) - delivered;
        let summary = PublishSummary { delivered, skipped_invalid, failed };
        rec.complete = true;
        rec.summary = summary;
        let ghost new_rec = rec;
        self.records.insert(k, rec);
        proof {
            assert(self.record_seq() =~= mid.update(k as int, new_rec));
            let s = self.record_seq();
            assert forall|a: int, b: int| 0 <= a < b < s.len() implies !(
            #[trigger] s[a].title@ == #[trigger] s[b].title@ && s[a].text_content@
                == s[b].text_content@ && s[a].html_content@ == s[b].html_content@) by {
                assert(!(mid[a].title@ == mid[b].title@ && mid[a].text_content@
                    == mid[b].text_content@ && mid[a].html_content@ == mid[b].html_content@));
            }
            self.lemma_prior_at(*form, k as int);
            assert(new_rec.attempts@ == attempts_of(old_prior));
            assert(summary == summary_of(attempts_of(old_prior), skipped_invalid));
            assert forall|j: int|
                0 <= j < before.len() && !same_issue(#[trigger] before[j], *form) implies s[j]
                == before[j] by {
                assert(j != k);
                assert(mid[j] == before[j]);
            }
        }
        summary
    }
}

/// The message shown to the administrator once an issue is published.
pub open spec fn published_message() -> Seq<char> {
    "The newsletter issue has been published!"@
}

/// The reply to a publication: a redirect back to the newsletter page with a
/// message, unless there were recipients and every send failed.
pub open spec fn is_publish_reply(summary: PublishSummary, reply: Reply) -> bool {
    if summary.delivered == 0 && summary.failed > 0 {
        &&& reply.status == 500
        &&& reply.location is None
        &&& reply.www_authenticate is None
        &&& reply.flash is None
    } else {
        &&& is_redirect_to(reply, "/admin/newsletters"@)
        &&& reply.flash matches Some(m) && m@ == published_message()
    }
}

/// The reply to a publication with the given totals.
pub fn publish_reply(summary: PublishSummary) -> (r: Reply)
    ensures
        is_publish_reply(summary, r),
{
    if summary.delivered == 0 && summary.failed > 0 {
        Reply { status: 500, location: None, www_authenticate: None, flash: None }
    } else {
        let mut reply = see_other("/admin/newsletters");
        reply.flash = Some(String::from_str("The newsletter issue has been published!"));
        reply
    }
}


/// An issue goes to confirmed subscribers only: no pending subscriber's
/// address is among the recipients, each recipient is a confirmed
/// subscriber's address not yet sent to, and, on a first attempt where all
/// `N` confirmed subscribers have well-formed addresses, there are exactly
/// `N` sends.
pub proof fn publish_reaches_exactly_the_confirmed(
    store: SubscriberStore,
    plan: DeliveryPlan,
    done: Seq<Seq<char>>,
)
    requires
        store.wf(),
        is_plan_for(plan, store, done),
    ensures
        forall|i: int, k: int|
            0 <= i < store.subscriber_seq().len() && #[trigger] store.subscriber_seq()[i].status
                == SubscriptionStatus::PendingConfirmation && 0 <= k < plan.recipients@.len()
                ==> #[trigger] plan.recipients@[k]@ != store.subscriber_seq()[i].email@,
        forall|k: int|
            0 <= k < plan.recipients@.len() ==> store.has_confirmed_email(
                #[trigger] plan.recipients@[k]@,
            ) && !done.contains(plan.recipients@[k]@),
        done.len() == 0 && (forall|j: int|
            0 <= j < store.confirmed_emails().len() ==> valid_email(
                #[trigger] store.confirmed_emails()[j],
            )) ==> plan.recipients@.len() == store.confirmed_emails().len(),
{
    let s = store.subscriber_seq();
    let emails = store.confirmed_emails();
    let rs = recipients_of(store);
    assert forall|k: int| 0 <= k < plan.recipients@.len() implies store.has_confirmed_email(
        #[trigger] plan.recipients@[k]@,
    ) && !done.contains(plan.recipients@[k]@) by {
        lemma_remaining_member(rs, done, rs.len() as int, k);
        let m = choose|m: int|
            0 <= m < rs.len() && #[trigger] rs[m] == remaining_upto(rs, done, rs.len() as int)[k];
        lemma_valid_upto_member(emails, emails.len() as int, m);
        let j = choose|j: int|
            0 <= j < emails.len() && #[trigger] emails[j] == valid_upto(
                emails,
                emails.len() as int,
            )[m];
        lemma_confirmed_emails_upto(s, s.len() as int, j);
        let i = choose|i: int|
            0 <= i < s.len() && s[i].status == SubscriptionStatus::Confirmed && #[trigger] s[i].email@
                == confirmed_emails_upto(s, s.len() as int)[j];
        assert(s[i].email@ == plan.recipients@[k]@);
    }
    assert forall|i: int, k: int|
        0 <= i < s.len() && #[trigger] s[i].status == SubscriptionStatus::PendingConfirmation && 0
            <= k < plan.recipients@.len() implies #[trigger] plan.recipients@[k]@ != s[i].email@ by {
        assert(store.has_confirmed_email(plan.recipients@[k]@));
        let w = choose|w: int|
            0 <= w < s.len() && s[w].status == SubscriptionStatus::Confirmed && #[trigger] s[w].email@
                == plan.recipients@[k]@;
        if w < i {
            assert(s[w].email@ != s[i].email@);
        } else if w > i {
            assert(s[i].email@ != s[w].email@);
        }
    }
    if done.len() == 0 && forall|j: int|
        0 <= j < emails.len() ==> valid_email(#[trigger] emails[j]) {
        lemma_valid_upto_all(emails, emails.len() as int);
        lemma_remaining_none_done(rs, rs.len() as int);
        assert(done =~= Seq::<Seq<char>>::empty());
        lemma_valid_upto_len(emails, emails.len() as int);
    }
}

/// Once the fan-out of an issue is finished, the same issue is complete: a
/// repeated request is answered with the recorded totals and sends nothing.
pub proof fn completed_issue_is_not_sent_again(
    earlier: NewsletterPublisher,
    later: NewsletterPublisher,
    store: SubscriberStore,
    form: FormData,
    skipped_invalid: u64,
    summary: PublishSummary,
    r: PublishStep,
)
    requires
        earlier.wf(),
        finish_post(earlier, form, skipped_invalid, later, summary),
        publish_post(later, store, form, r),
    ensures
        r == PublishStep::AlreadyPublished(summary),
{
}

/// A retry after an interrupted fan-out sends neither to the address just
/// recorded nor to any address sent to before it.
pub proof fn retry_skips_recipients_already_sent(
    earlier: NewsletterPublisher,
    later: NewsletterPublisher,
    store: SubscriberStore,
    form: FormData,
    recipient: Seq<char>,
    ok: bool,
    r: PublishStep,
)
    requires
        earlier.wf(),
        store.wf(),
        !is_complete(earlier, form),
        record_send_post(earlier, form, recipient, ok, later),
        publish_post(later, store, form, r),
    ensures
        r matches PublishStep::Deliver(plan) && forall|k: int|
            0 <= k < plan.recipients@.len() ==> #[trigger] plan.recipients@[k]@ != recipient
                && !attempted(attempts_of(earlier.prior(form))).contains(plan.recipients@[k]@),
{
    let d0 = attempted(attempts_of(earlier.prior(form)));
    let d1 = attempted(attempts_of(later.prior(form)));
    assert(d1 == d0.push(recipient));
    if let PublishStep::Deliver(plan) = r {
        assert forall|k: int| 0 <= k < plan.recipients@.len() implies #[trigger] plan.recipients@[k]@
            != recipient && !d0.contains(plan.recipients@[k]@) by {
            publish_reaches_exactly_the_confirmed(store, plan, d1);
            let x = plan.recipients@[k]@;
            assert(!d1.contains(x));
            assert(d1[d0.len() as int] == recipient);
            if d0.contains(x) {
                let j = choose|j: int| 0 <= j < d0.len() && d0[j] == x;
                assert(d1[j] == x);
            }
        }
    }
}

/// The browser-driven publish: without a session naming an administrator the
/// request is sent to the login page and nothing is sent; otherwise
/// `publish_newsletter` decides.
pub fn publish_for_session(
    publisher: &NewsletterPublisher,
    session_user: Option<u64>,
    store: &SubscriberStore,
    form: &FormData,
) -> (r: Result<PublishStep, Reply>)
    requires
        publisher.wf(),
        store.wf(),
    ensures
        session_user is None ==> (r matches Err(reply) && is_auth_error_reply(
            AuthError::Unauthenticated,
            reply,
        )),
        session_user is Some ==> (r matches Ok(step) && publish_post(
            *publisher,
            *store,
            *form,
            step,
        )),
{
    match session_gate(session_user) {
        Ok(_) => Ok(publisher.publish_newsletter(store, form)),
        Err(e) => Err(auth_error_reply(e)),
    }
}

/// The machine-oriented publish, given the account found for the presented
/// username (none if unknown) and whether the presented password matched the
/// hash that `credential_candidate` returned. Unless both hold, the answer is
/// the 401 `Basic realm="publish"` challenge, the same for an unknown user and
/// a wrong password, and nothing is sent.
pub fn publish_for_credentials(
    publisher: &NewsletterPublisher,
    candidate: Option<u64>,
    password_matches: bool,
    store: &SubscriberStore,
    form: &FormData,
) -> (r: Result<PublishStep, Reply>)
    requires
        publisher.wf(),
        store.wf(),
    ensures
        auth_outcome(candidate, password_matches) is Err ==> (r matches Err(reply)
            && is_auth_error_reply(AuthError::InvalidCredentials, reply)),
        auth_outcome(candidate, password_matches) is Ok ==> (r matches Ok(step) && publish_post(
            *publisher,
            *store,
            *form,
            step,
        )),
{
    match authentication_outcome(candidate, password_matches) {
        Ok(_) => Ok(publisher.publish_newsletter(store, form)),
        Err(e) => Err(auth_error_reply(e)),
    }
}

} // verus!
