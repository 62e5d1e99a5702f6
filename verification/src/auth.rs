//! The request authenticator: one decision, per request, from the active
//! policy and the presented credentials (and, for the signed-webhook
//! policy, the request body) to an outcome.
//!
//! The decision table is [`decide`]; [`authenticate`] is proved to return
//! exactly its value. Any combination the table does not accept is
//! rejected, so the authenticator fails closed.

use crate::signature::{sig_check_spec, verify, SigCheck};
use crate::strutil::str_eq;
use vstd::prelude::*;

verus! {

/// The process-wide authentication policy, fixed at startup.
pub enum AuthPolicy {
    /// No authentication required; every request is authorized.
    Open,
    /// Requests must present exactly this bearer token, and nothing else.
    StaticToken { expected: String },
    /// Requests must present a verifiable signature over this secret and
    /// the body; a non-empty `allowed_events` list additionally filters by
    /// the presented event name.
    SignedWebhook { secret: String, allowed_events: Vec<String> },
}

/// The mathematical view of a policy.
pub ghost enum PolicyModel {
    Open,
    StaticToken { expected: Seq<char> },
    SignedWebhook { secret: Seq<char>, allowed_events: Seq<Seq<char>> },
}

impl View for AuthPolicy {
    type V = PolicyModel;

    open spec fn view(&self) -> PolicyModel {
        match self {
            AuthPolicy::Open => PolicyModel::Open,
            AuthPolicy::StaticToken { expected } => PolicyModel::StaticToken {
                expected: expected@,
            },
            AuthPolicy::SignedWebhook { secret, allowed_events } => PolicyModel::SignedWebhook {
                secret: secret@,
                allowed_events: allowed_events.deep_view(),
            },
        }
    }
}

/// The untrusted credential material one request presents.
pub struct Credentials {
    /// The bearer token, when an `Authorization: Bearer` header was sent.
    pub bearer: Option<String>,
    /// The raw signature header value, when one was sent.
    pub signature: Option<String>,
    /// The event-name header value, when one was sent.
    pub event: Option<String>,
}

/// The mathematical view of presented credentials.
pub ghost struct CredModel {
    pub bearer: Option<Seq<char>>,
    pub signature: Option<Seq<char>>,
    pub event: Option<Seq<char>>,
}

impl View for Credentials {
    type V = CredModel;

    open spec fn view(&self) -> CredModel {
        CredModel {
            bearer: match self.bearer {
                Option::Some(b) => Option::Some(b@),
                Option::None => Option::None,
            },
            signature: match self.signature {
                Option::Some(s) => Option::Some(s@),
                Option::None => Option::None,
            },
            event: match self.event {
                Option::Some(e) => Option::Some(e@),
                Option::None => Option::None,
            },
        }
    }
}

/// Why a request was rejected; determines the client-facing status.
#[derive(Debug, PartialEq, Eq, Structural, Clone, Copy)]
pub enum Rejection {
    /// A credential was presented but is wrong, or its shape is
    /// inconsistent with the active policy.
    Unauthorized,
    /// Credential material the policy requires is missing or malformed.
    BadRequest,
}

/// The authenticator's verdict on one request.
#[derive(Debug, PartialEq, Eq, Structural, Clone, Copy)]
pub enum AuthOutcome {
    /// The request may trigger the update.
    Authorized,
    /// The request is refused with a client error.
    Rejected(Rejection),
    /// The request is authentic but its event is filtered out: surfaced as
    /// success with empty content, so the sender does not retry.
    Ignored,
}

/// The decision table: policy and presented credentials (and the body, for
/// the signed-webhook policy) to an outcome.
///
/// Under a static token, the bearer must match and no signature or event
/// header may accompany it. Under a signed webhook, a bearer is never
/// valid; a missing or malformed signature is a bad request; a wrong
/// digest is unauthorized; and only then does the event filter apply.
pub open spec fn decide(policy: PolicyModel, c: CredModel, body: Seq<u8>) -> AuthOutcome {
    match policy {
        PolicyModel::Open => AuthOutcome::Authorized,
        PolicyModel::StaticToken { expected } => {
            if c.bearer == Option::Some(expected) && c.signature is None && c.event is None {
                AuthOutcome::Authorized
            } else {
                AuthOutcome::Rejected(Rejection::Unauthorized)
            }
        },
        PolicyModel::SignedWebhook { secret, allowed_events } => {
            if c.bearer is Some {
                AuthOutcome::Rejected(Rejection::Unauthorized)
            } else {
                match c.signature {
                    Option::None => AuthOutcome::Rejected(Rejection::BadRequest),
                    Option::Some(sig) => match sig_check_spec(
                        vstd::utf8::encode_utf8(secret),
                        body,
                        sig,
                    ) {
                        SigCheck::Malformed => AuthOutcome::Rejected(Rejection::BadRequest),
                        SigCheck::Mismatch => AuthOutcome::Rejected(Rejection::Unauthorized),
                        SigCheck::Valid => {
                            if allowed_events.len() == 0 {
                                AuthOutcome::Authorized
                            } else {
                                match c.event {
                                    Option::None => AuthOutcome::Rejected(Rejection::BadRequest),
                                    Option::Some(e) => if allowed_events.contains(e) {
                                        AuthOutcome::Authorized
                                    } else {
                                        AuthOutcome::Ignored
                                    },
                                }
                            }
                        },
                    },
                }
            }
        },
    }
}

/// Whether some element of `v` equals `e`, character for character.
fn contains_str(v: &Vec<String>, e: &str) -> (r: bool)
    ensures
        r == v.deep_view().contains(e@),
{
    let mut i: usize = 0;
    while i < v.len()
        invariant
            0 <= i <= v@.len(),
            forall|j: int| 0 <= j < i ==> v.deep_view()[j] != e@,
        decreases v@.len() - i,
    {
        if str_eq(v[i].as_str(), e) {
            assert(v.deep_view()[i as int] == e@);
            return true;
        }
        i += 1;
    }
    false
}

/// Authenticate one request: the active policy, its presented credentials,
/// and the body as the sequence of chunks in which it arrived.
///
/// The body is hashed only when the policy is a signed webhook and the
/// credential shape admits a signature check at all.
pub fn authenticate(policy: &AuthPolicy, creds: &Credentials, chunks: &Vec<Vec<u8>>) -> (r:
    AuthOutcome)
    ensures
        r == decide(policy@, creds@, chunks.deep_view().flatten()),
{
    match policy {
        AuthPolicy::Open => AuthOutcome::Authorized,
        AuthPolicy::StaticToken { expected } => {
            match (&creds.bearer, &creds.signature, &creds.event) {
                (Option::Some(b), Option::None, Option::None) => {
                    if str_eq(b.as_str(), expected.as_str()) {
                        AuthOutcome::Authorized
                    } else {
                        AuthOutcome::Rejected(Rejection::Unauthorized)
                    }
                },
                _ => AuthOutcome::Rejected(Rejection::Unauthorized),
            }
        },
        AuthPolicy::SignedWebhook { secret, allowed_events } => {
            if creds.bearer.is_some() {
                return AuthOutcome::Rejected(Rejection::Unauthorized);
            }
            match &creds.signature {
                Option::None => AuthOutcome::Rejected(Rejection::BadRequest),
                Option::Some(sig) => {
                    match verify(secret.as_str().as_bytes(), chunks, sig.as_str()) {
                        SigCheck::Malformed => AuthOutcome::Rejected(Rejection::BadRequest),
                        SigCheck::Mismatch => AuthOutcome::Rejected(Rejection::Unauthorized),
                        SigCheck::Valid => {
                            if allowed_events.len() == 0 {
                                AuthOutcome::Authorized
                            } else {
                                match &creds.event {
                                    Option::None => AuthOutcome::Rejected(Rejection::BadRequest),
                                    Option::Some(e) => {
                                        if contains_str(allowed_events, e.as_str()) {
                                            AuthOutcome::Authorized
                                        } else {
                                            AuthOutcome::Ignored
                                        }
                                    },
                                }
                            }
                        },
                    }
                },
            }
        },
    }
}

/// Under a static-token policy: exactly the expected bearer, presented
/// alone, authorizes; a differing bearer, a missing bearer, or extra
/// credential material is rejected as unauthorized.
pub proof fn lemma_static_token_decisions(expected: Seq<char>, c: CredModel, body: Seq<u8>)
    ensures
        (c.bearer == Option::Some(expected) && c.signature is None && c.event is None) ==> decide(
            PolicyModel::StaticToken { expected },
            c,
            body,
        ) == AuthOutcome::Authorized,
        (c.bearer matches Option::Some(b) && b != expected) ==> decide(
            PolicyModel::StaticToken { expected },
            c,
            body,
        ) == AuthOutcome::Rejected(Rejection::Unauthorized),
        c.bearer is None ==> decide(PolicyModel::StaticToken { expected }, c, body)
            == AuthOutcome::Rejected(Rejection::Unauthorized),
{
}

/// Under a signed-webhook policy with no event filter and no bearer sent:
/// a verifying signature authorizes, a wrong digest is unauthorized, and a
/// missing or malformed signature header is a bad request.
pub proof fn lemma_signed_webhook_decisions(secret: Seq<char>, c: CredModel, body: Seq<u8>)
    requires
        c.bearer is None,
    ensures
        (c.signature matches Option::Some(s) && sig_check_spec(
            vstd::utf8::encode_utf8(secret),
            body,
            s,
        ) == SigCheck::Valid) ==> decide(
            PolicyModel::SignedWebhook { secret, allowed_events: Seq::empty() },
            c,
            body,
        ) == AuthOutcome::Authorized,
        (c.signature matches Option::Some(s) && sig_check_spec(
            vstd::utf8::encode_utf8(secret),
            body,
            s,
        ) == SigCheck::Mismatch) ==> decide(
            PolicyModel::SignedWebhook { secret, allowed_events: Seq::empty() },
            c,
            body,
        ) == AuthOutcome::Rejected(Rejection::Unauthorized),
        (c.signature matches Option::Some(s) && sig_check_spec(
            vstd::utf8::encode_utf8(secret),
            body,
            s,
        ) == SigCheck::Malformed) ==> decide(
            PolicyModel::SignedWebhook { secret, allowed_events: Seq::empty() },
            c,
            body,
        ) == AuthOutcome::Rejected(Rejection::BadRequest),
        c.signature is None ==> decide(
            PolicyModel::SignedWebhook { secret, allowed_events: Seq::empty() },
            c,
            body,
        ) == AuthOutcome::Rejected(Rejection::BadRequest),
{
}

/// Under a signed-webhook policy with a non-empty event filter, once the
/// signature verifies and no bearer was sent: a listed event authorizes,
/// an unlisted one is ignored (soft success), and a missing event header
/// is a bad request.
pub proof fn lemma_event_filter_decisions(
    secret: Seq<char>,
    allowed: Seq<Seq<char>>,
    c: CredModel,
    body: Seq<u8>,
)
    requires
        allowed.len() > 0,
        c.bearer is None,
        c.signature matches Option::Some(s) && sig_check_spec(
            vstd::utf8::encode_utf8(secret),
            body,
            s,
        ) == SigCheck::Valid,
    ensures
        (c.event matches Option::Some(e) && allowed.contains(e)) ==> decide(
            PolicyModel::SignedWebhook { secret, allowed_events: allowed },
            c,
            body,
        ) == AuthOutcome::Authorized,
        (c.event matches Option::Some(e) && !allowed.contains(e)) ==> decide(
            PolicyModel::SignedWebhook { secret, allowed_events: allowed },
            c,
            body,
        ) == AuthOutcome::Ignored,
        c.event is None ==> decide(PolicyModel::SignedWebhook { secret, allowed_events: allowed }, c, body)
            == AuthOutcome::Rejected(Rejection::BadRequest),
{
}

/// Event filtering never overrides a failed security check: a request is
/// ignored only under a signed-webhook policy with a non-empty allow-list,
/// with no bearer sent, and with a signature that verified.
pub proof fn lemma_ignored_implies_verified(policy: PolicyModel, c: CredModel, body: Seq<u8>)
    ensures
        decide(policy, c, body) == AuthOutcome::Ignored ==> (policy matches
            PolicyModel::SignedWebhook { secret, allowed_events } && allowed_events.len() > 0
            && c.bearer is None && (c.signature matches Option::Some(s) && sig_check_spec(
            vstd::utf8::encode_utf8(secret),
            body,
            s,
        ) == SigCheck::Valid)),
{
}

} // verus!
