//! End-to-end request handling: policy, credentials and a mocked command
//! outcome to one response.

use hookgate::auth::{AuthOutcome, AuthPolicy, Credentials, Rejection};
use hookgate::gateway::{handle_request, status_of_outcome};
use hookgate::headers::{GithubEvent, GithubSignature256};
use hookgate::invoker::Updated;
use sha2::Digest;

fn no_creds() -> Credentials {
    Credentials { bearer: None, signature: None, event: None }
}

#[test]
fn signed_webhook_end_to_end_relays_mock_records() {
    let policy = AuthPolicy::SignedWebhook {
        secret: "abc".to_string(),
        allowed_events: Vec::new(),
    };
    let mut h = sha2::Sha256::new();
    h.update(b"abc");
    h.update(b"hello");
    let sig = format!("sha256={}", hex::encode(h.finalize()));
    let creds = Credentials { bearer: None, signature: Some(sig), event: None };
    let chunks: Vec<Vec<u8>> = vec![b"hello".to_vec()];
    let mock = "[{\"Unit\":\"u.service\",\"Container\":\"c\",\"Image\":\"img\",\"ContainerName\":\"cn\",\"ContainerID\":\"cid\",\"Policy\":\"registry\",\"Updated\":\"false\"}]".as_bytes().to_vec();
    let r = handle_request(&policy, &creds, &chunks, true, &mock);
    assert_eq!(r.status, 200);
    assert_eq!(r.records.len(), 1);
    assert_eq!(r.records[0].unit, "u.service");
    assert_eq!(r.records[0].updated, Updated::False);
}

#[test]
fn rejected_request_never_carries_records() {
    let policy = AuthPolicy::StaticToken { expected: "t".to_string() };
    let chunks: Vec<Vec<u8>> = vec![];
    let mock = b"[]".to_vec();
    let r = handle_request(&policy, &no_creds(), &chunks, true, &mock);
    assert_eq!(r.status, 401);
    assert_eq!(r.records.len(), 0);
}

#[test]
fn failed_invocation_is_a_server_error() {
    let chunks: Vec<Vec<u8>> = vec![];
    let mock = b"".to_vec();
    let r = handle_request(&AuthPolicy::Open, &no_creds(), &chunks, false, &mock);
    assert_eq!(r.status, 500);
    assert_eq!(r.records.len(), 0);
}

#[test]
fn ignored_event_is_a_success_with_empty_body() {
    let policy = AuthPolicy::SignedWebhook {
        secret: "S".to_string(),
        allowed_events: vec!["push".to_string()],
    };
    let mut h = sha2::Sha256::new();
    h.update(b"S");
    h.update(b"body");
    let sig = format!("sha256={}", hex::encode(h.finalize()));
    let creds = Credentials {
        bearer: None,
        signature: Some(sig),
        event: Some("pull_request".to_string()),
    };
    let chunks: Vec<Vec<u8>> = vec![b"body".to_vec()];
    let mock = b"ignored".to_vec();
    let r = handle_request(&policy, &creds, &chunks, true, &mock);
    assert_eq!(r.status, 200);
    assert_eq!(r.records.len(), 0);
}

#[test]
fn outcome_statuses() {
    assert_eq!(status_of_outcome(AuthOutcome::Authorized), 200);
    assert_eq!(status_of_outcome(AuthOutcome::Ignored), 200);
    assert_eq!(status_of_outcome(AuthOutcome::Rejected(Rejection::Unauthorized)), 401);
    assert_eq!(status_of_outcome(AuthOutcome::Rejected(Rejection::BadRequest)), 400);
}

#[test]
fn header_names_match_the_wire() {
    assert_eq!(GithubSignature256::name(), "x-hub-signature-256");
    assert_eq!(GithubEvent::name(), "x-github-event");
    let sig = GithubSignature256("sha256=00".to_string());
    let ev = GithubEvent("push".to_string());
    assert_eq!(sig.0, "sha256=00");
    assert_eq!(ev.0, "push");
}
