use newsletter::authentication::{auth_error_reply, session_gate, AuthError};
use newsletter::newsletter::{publish_for_credentials, publish_for_session};
use newsletter::confirmation::confirm;
use newsletter::newsletter::{publish_reply, FormData, NewsletterPublisher, PublishStep, PublishSummary};
use newsletter::store::SubscriberStore;
use newsletter::subscriptions::{subscribe, Email, FormData as SubscriptionForm};

const BASE_URL: &str = "http://127.0.0.1:8000";

fn issue() -> FormData {
    FormData {
        title: "Newsletter title".to_string(),
        text_content: "Newsletter body as plain text".to_string(),
        html_content: "<p>Newsletter body as HTML</p>".to_string(),
    }
}

fn create_unconfirmed_subscriber(store: &mut SubscriberStore, token: &str) -> Email {
    let form = SubscriptionForm {
        name: "le guin".to_string(),
        email: "ursula_le_guin@gmail.com".to_string(),
    };
    subscribe(store, form, token.to_string(), BASE_URL).unwrap()
}

fn create_confirmed_subscriber(store: &mut SubscriberStore, token: &str) {
    create_unconfirmed_subscriber(store, token);
    confirm(store, token).unwrap();
}

fn publish(publisher: &mut NewsletterPublisher, store: &SubscriberStore, form: FormData) -> (usize, PublishSummary) {
    match publisher.publish_newsletter(store, &form) {
        PublishStep::AlreadyPublished(summary) => (0, summary),
        PublishStep::Deliver(plan) => {
            let n = plan.recipients.len();
            for to in plan.recipients.iter() {
                publisher.record_send(&form, to.clone(), true);
            }
            let summary = publisher.finish_publication(&form, plan.skipped_invalid);
            (n, summary)
        }
    }
}

#[test]
fn you_must_be_logged_in_to_see_the_newsletter_form() {
    let e = session_gate(None).unwrap_err();
    let reply = auth_error_reply(e);
    assert_eq!(reply.status, 303);
    assert_eq!(reply.location.as_deref(), Some("/login"));
}

#[test]
fn you_must_be_logged_in_to_publish_a_newsletter() {
    let mut store = SubscriberStore::new();
    create_confirmed_subscriber(&mut store, "tok-login");
    let publisher = NewsletterPublisher::new();
    let newsletter_request_body = issue();
    let reply = match publish_for_session(&publisher, None, &store, &newsletter_request_body) {
        Err(reply) => reply,
        Ok(_) => panic!("an anonymous request must not publish"),
    };
    assert_eq!(reply.status, 303);
    assert_eq!(reply.location.as_deref(), Some("/login"));
    assert!(matches!(
        publish_for_session(&publisher, Some(1), &store, &newsletter_request_body),
        Ok(PublishStep::Deliver(_))
    ));
    assert_eq!(session_gate(None), Err(AuthError::Unauthenticated));
}

#[test]
fn newsletters_are_not_delivered_to_unconfirmed_subscribers() {
    let mut store = SubscriberStore::new();
    create_unconfirmed_subscriber(&mut store, "tokenunconfirmed0001");
    assert_eq!(session_gate(Some(7)), Ok(7));
    let mut publisher = NewsletterPublisher::new();
    let (sends, summary) = publish(&mut publisher, &store, issue());
    assert_eq!(sends, 0);
    let reply = publish_reply(summary);
    assert_eq!(reply.status, 303);
    assert_eq!(reply.location.as_deref(), Some("/admin/newsletters"));
    let page = format!("<p><i>{}</i></p>", reply.flash.unwrap());
    assert!(page.contains("<p><i>The newsletter issue has been published!</i></p"));
}

#[test]
fn newsletters_are_delivered_to_confirmed_subscribers() {
    let mut store = SubscriberStore::new();
    create_confirmed_subscriber(&mut store, "tokenconfirmed000001");
    let mut publisher = NewsletterPublisher::new();
    let (sends, summary) = publish(&mut publisher, &store, issue());
    assert_eq!(sends, 1);
    assert_eq!(summary.delivered, 1);
    let reply = publish_reply(summary);
    assert_eq!(reply.status, 303);
    assert_eq!(reply.location.as_deref(), Some("/admin/newsletters"));
    let page = format!("<p><i>{}</i></p>", reply.flash.unwrap());
    assert!(page.contains("<p><i>The newsletter issue has been published!</i></p"));
}

#[test]
fn subscribe_confirm_publish_and_republish_le_guin() {
    let mut store = SubscriberStore::new();
    let mail = create_unconfirmed_subscriber(&mut store, "abcDEF123");
    assert_eq!(mail.recipient, "ursula_le_guin@gmail.com");
    let link = "http://127.0.0.1:8000/subscriptions/confirm?subscription_token=abcDEF123";
    assert!(mail.html_body.contains(link));
    assert!(mail.text_body.contains(link));
    let token = link.split("subscription_token=").nth(1).unwrap();
    confirm(&mut store, token).unwrap();
    let mut publisher = NewsletterPublisher::new();
    let form = issue();
    match publisher.publish_newsletter(&store, &form) {
        PublishStep::Deliver(plan) => {
            assert_eq!(plan.recipients, vec!["ursula_le_guin@gmail.com".to_string()]);
            publisher.record_send(&form, plan.recipients[0].clone(), true);
            let summary = publisher.finish_publication(&form, plan.skipped_invalid);
            assert_eq!(summary, PublishSummary { delivered: 1, skipped_invalid: 0, failed: 0 });
        }
        PublishStep::AlreadyPublished(_) => panic!("first publication must deliver"),
    }
    let (sends, summary) = publish(&mut publisher, &store, issue());
    assert_eq!(sends, 0);
    assert_eq!(summary.delivered, 1);
}

#[test]
fn a_changed_issue_is_published_again() {
    let mut store = SubscriberStore::new();
    create_confirmed_subscriber(&mut store, "tok-1");
    let mut publisher = NewsletterPublisher::new();
    assert_eq!(publish(&mut publisher, &store, issue()).0, 1);
    let mut other = issue();
    other.title = "Another title".to_string();
    assert_eq!(publish(&mut publisher, &store, other).0, 1);
}

#[test]
fn publishing_reaches_every_confirmed_subscriber_once() {
    let mut store = SubscriberStore::new();
    for (i, email) in ["a@x.io", "b@x.io", "c@x.io"].iter().enumerate() {
        let form = SubscriptionForm { email: email.to_string(), name: "n".to_string() };
        let token = format!("t{}", i);
        subscribe(&mut store, form, token.clone(), BASE_URL).unwrap();
        if i != 1 {
            confirm(&mut store, &token).unwrap();
        }
    }
    let mut publisher = NewsletterPublisher::new();
    match publisher.publish_newsletter(&store, &issue()) {
        PublishStep::Deliver(plan) => {
            assert_eq!(plan.recipients, vec!["a@x.io".to_string(), "c@x.io".to_string()]);
            assert_eq!(plan.skipped_invalid, 0);
        }
        PublishStep::AlreadyPublished(_) => panic!("nothing was published yet"),
    }
}

#[test]
fn failed_sends_are_counted_and_do_not_stop_the_batch() {
    let mut store = SubscriberStore::new();
    create_confirmed_subscriber(&mut store, "t1");
    let form = SubscriptionForm { email: "z@y.org".to_string(), name: "Z".to_string() };
    subscribe(&mut store, form, "t2".to_string(), BASE_URL).unwrap();
    confirm(&mut store, "t2").unwrap();
    let mut publisher = NewsletterPublisher::new();
    let form = issue();
    let plan = match publisher.publish_newsletter(&store, &form) {
        PublishStep::Deliver(plan) => plan,
        PublishStep::AlreadyPublished(_) => panic!("nothing was published yet"),
    };
    publisher.record_send(&form, plan.recipients[0].clone(), false);
    publisher.record_send(&form, plan.recipients[1].clone(), true);
    let summary = publisher.finish_publication(&form, plan.skipped_invalid);
    assert_eq!(summary, PublishSummary { delivered: 1, skipped_invalid: 0, failed: 1 });
    assert_eq!(publish_reply(summary).status, 303);
}

#[test]
fn every_send_failing_is_a_server_error() {
    let summary = PublishSummary { delivered: 0, skipped_invalid: 0, failed: 2 };
    let reply = publish_reply(summary);
    assert_eq!(reply.status, 500);
    assert!(reply.location.is_none());
}

#[test]
fn publishing_to_nobody_still_succeeds() {
    let store = SubscriberStore::new();
    let mut publisher = NewsletterPublisher::new();
    let (sends, summary) = publish(&mut publisher, &store, issue());
    assert_eq!(sends, 0);
    assert_eq!(summary, PublishSummary { delivered: 0, skipped_invalid: 0, failed: 0 });
    assert_eq!(publish_reply(summary).status, 303);
}

#[test]
fn a_retry_after_an_interruption_skips_those_already_sent_to() {
    let mut store = SubscriberStore::new();
    for (i, email) in ["a@x.io", "b@x.io", "c@x.io"].iter().enumerate() {
        let form = SubscriptionForm { email: email.to_string(), name: "n".to_string() };
        let token = format!("r{}", i);
        subscribe(&mut store, form, token.clone(), BASE_URL).unwrap();
        confirm(&mut store, &token).unwrap();
    }
    let mut publisher = NewsletterPublisher::new();
    let form = issue();
    let plan = match publisher.publish_newsletter(&store, &form) {
        PublishStep::Deliver(plan) => plan,
        PublishStep::AlreadyPublished(_) => panic!("nothing was published yet"),
    };
    assert_eq!(plan.recipients.len(), 3);
    publisher.record_send(&form, plan.recipients[0].clone(), true);
    // interrupted here; the same request comes again
    let retry = match publisher.publish_newsletter(&store, &issue()) {
        PublishStep::Deliver(plan) => plan,
        PublishStep::AlreadyPublished(_) => panic!("the first run did not finish"),
    };
    assert_eq!(retry.recipients, vec!["b@x.io".to_string(), "c@x.io".to_string()]);
    publisher.record_send(&form, retry.recipients[0].clone(), true);
    publisher.record_send(&form, retry.recipients[1].clone(), false);
    let summary = publisher.finish_publication(&form, retry.skipped_invalid);
    assert_eq!(summary, PublishSummary { delivered: 2, skipped_invalid: 0, failed: 1 });
    assert!(matches!(
        publisher.publish_newsletter(&store, &issue()),
        PublishStep::AlreadyPublished(s) if s == summary
    ));
    publisher.record_send(&form, "a@x.io".to_string(), true);
    assert_eq!(publisher.finish_publication(&form, 0), summary);
}

#[test]
fn bad_credentials_get_the_challenge_and_publish_nothing() {
    let mut store = SubscriberStore::new();
    create_confirmed_subscriber(&mut store, "tok-basic");
    let publisher = NewsletterPublisher::new();
    for (candidate, matches) in [(None, false), (None, true), (Some(3), false)] {
        let reply = match publish_for_credentials(&publisher, candidate, matches, &store, &issue()) {
            Err(reply) => reply,
            Ok(_) => panic!("bad credentials must not publish"),
        };
        assert_eq!(reply.status, 401);
        assert_eq!(reply.www_authenticate.as_deref(), Some("Basic realm=\"publish\""));
    }
    match publish_for_credentials(&publisher, Some(3), true, &store, &issue()) {
        Ok(PublishStep::Deliver(plan)) => assert_eq!(plan.recipients, vec!["ursula_le_guin@gmail.com".to_string()]),
        _ => panic!("valid credentials publish"),
    }
}
