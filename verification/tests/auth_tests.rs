//! The authenticator's decision table, scenario by scenario.

use hookgate::auth::{authenticate, AuthOutcome, AuthPolicy, Credentials, Rejection};
use sha2::Digest;

fn creds(bearer: Option<&str>, signature: Option<&str>, event: Option<&str>) -> Credentials {
    Credentials {
        bearer: bearer.map(|s| s.to_string()),
        signature: signature.map(|s| s.to_string()),
        event: event.map(|s| s.to_string()),
    }
}

fn signature_for(secret: &str, body: &[u8]) -> String {
    let mut h = sha2::Sha256::new();
    h.update(secret.as_bytes());
    h.update(body);
    format!("sha256={}", hex::encode(h.finalize()))
}

fn signed_policy(secret: &str, events: &[&str]) -> AuthPolicy {
    AuthPolicy::SignedWebhook {
        secret: secret.to_string(),
        allowed_events: events.iter().map(|e| e.to_string()).collect(),
    }
}

#[test]
fn open_policy_authorizes_anything() {
    let chunks: Vec<Vec<u8>> = vec![];
    let r = authenticate(&AuthPolicy::Open, &creds(None, None, None), &chunks);
    assert_eq!(r, AuthOutcome::Authorized);
    let r = authenticate(&AuthPolicy::Open, &creds(Some("x"), Some("y"), Some("z")), &chunks);
    assert_eq!(r, AuthOutcome::Authorized);
}

#[test]
fn static_token_matching_bearer_authorizes() {
    let policy = AuthPolicy::StaticToken { expected: "tok-1".to_string() };
    let chunks: Vec<Vec<u8>> = vec![];
    let r = authenticate(&policy, &creds(Some("tok-1"), None, None), &chunks);
    assert_eq!(r, AuthOutcome::Authorized);
}

#[test]
fn static_token_wrong_bearer_is_unauthorized() {
    let policy = AuthPolicy::StaticToken { expected: "tok-1".to_string() };
    let chunks: Vec<Vec<u8>> = vec![];
    let r = authenticate(&policy, &creds(Some("tok-2"), None, None), &chunks);
    assert_eq!(r, AuthOutcome::Rejected(Rejection::Unauthorized));
}

#[test]
fn static_token_missing_bearer_is_unauthorized() {
    let policy = AuthPolicy::StaticToken { expected: "tok-1".to_string() };
    let chunks: Vec<Vec<u8>> = vec![];
    let r = authenticate(&policy, &creds(None, None, None), &chunks);
    assert_eq!(r, AuthOutcome::Rejected(Rejection::Unauthorized));
}

#[test]
fn static_token_extra_headers_are_unauthorized() {
    let policy = AuthPolicy::StaticToken { expected: "tok-1".to_string() };
    let chunks: Vec<Vec<u8>> = vec![];
    let r = authenticate(&policy, &creds(Some("tok-1"), Some("sha256=00"), None), &chunks);
    assert_eq!(r, AuthOutcome::Rejected(Rejection::Unauthorized));
}

#[test]
fn signed_webhook_correct_signature_authorizes() {
    let policy = signed_policy("S", &[]);
    let chunks: Vec<Vec<u8>> = vec![b"payload".to_vec()];
    let sig = signature_for("S", b"payload");
    let r = authenticate(&policy, &creds(None, Some(&sig), None), &chunks);
    assert_eq!(r, AuthOutcome::Authorized);
}

#[test]
fn signed_webhook_wrong_signature_is_unauthorized() {
    let policy = signed_policy("S", &[]);
    let chunks: Vec<Vec<u8>> = vec![b"payload".to_vec()];
    let sig = signature_for("S", b"other");
    let r = authenticate(&policy, &creds(None, Some(&sig), None), &chunks);
    assert_eq!(r, AuthOutcome::Rejected(Rejection::Unauthorized));
}

#[test]
fn signed_webhook_missing_signature_is_bad_request() {
    let policy = signed_policy("S", &[]);
    let chunks: Vec<Vec<u8>> = vec![b"payload".to_vec()];
    let r = authenticate(&policy, &creds(None, None, None), &chunks);
    assert_eq!(r, AuthOutcome::Rejected(Rejection::BadRequest));
}

#[test]
fn signed_webhook_malformed_signature_is_bad_request() {
    let policy = signed_policy("S", &[]);
    let chunks: Vec<Vec<u8>> = vec![b"payload".to_vec()];
    let r = authenticate(&policy, &creds(None, Some("no-equals-here"), None), &chunks);
    assert_eq!(r, AuthOutcome::Rejected(Rejection::BadRequest));
}

#[test]
fn signed_webhook_bearer_is_never_valid() {
    let policy = signed_policy("S", &[]);
    let chunks: Vec<Vec<u8>> = vec![b"payload".to_vec()];
    let sig = signature_for("S", b"payload");
    let r = authenticate(&policy, &creds(Some("tok"), Some(&sig), None), &chunks);
    assert_eq!(r, AuthOutcome::Rejected(Rejection::Unauthorized));
}

#[test]
fn event_filter_listed_event_authorizes() {
    let policy = signed_policy("S", &["push"]);
    let chunks: Vec<Vec<u8>> = vec![b"payload".to_vec()];
    let sig = signature_for("S", b"payload");
    let r = authenticate(&policy, &creds(None, Some(&sig), Some("push")), &chunks);
    assert_eq!(r, AuthOutcome::Authorized);
}

#[test]
fn event_filter_unlisted_event_is_ignored() {
    let policy = signed_policy("S", &["push"]);
    let chunks: Vec<Vec<u8>> = vec![b"payload".to_vec()];
    let sig = signature_for("S", b"payload");
    let r = authenticate(&policy, &creds(None, Some(&sig), Some("pull_request")), &chunks);
    assert_eq!(r, AuthOutcome::Ignored);
}

#[test]
fn event_filter_missing_event_is_bad_request() {
    let policy = signed_policy("S", &["push"]);
    let chunks: Vec<Vec<u8>> = vec![b"payload".to_vec()];
    let sig = signature_for("S", b"payload");
    let r = authenticate(&policy, &creds(None, Some(&sig), None), &chunks);
    assert_eq!(r, AuthOutcome::Rejected(Rejection::BadRequest));
}

#[test]
fn event_filter_does_not_override_bad_signature() {
    let policy = signed_policy("S", &["push"]);
    let chunks: Vec<Vec<u8>> = vec![b"payload".to_vec()];
    let sig = signature_for("S", b"other");
    let r = authenticate(&policy, &creds(None, Some(&sig), Some("push")), &chunks);
    assert_eq!(r, AuthOutcome::Rejected(Rejection::Unauthorized));
}
