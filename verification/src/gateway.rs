//! The gateway's response mapping: authenticator and invoker outcomes to
//! the status code and record list of one response.
//!
//! Authentication failures are always client-facing (400 or 401) and an
//! ignored event is a plain success with no records, so a sender never
//! retries an intentional no-op; invocation failures are always 500.

use crate::auth::{authenticate, decide, AuthOutcome, AuthPolicy, CredModel, Credentials,
    PolicyModel, Rejection};
use crate::invoker::{classify_output, classify_spec, view_records, InvocationError, RecordModel,
    UpdateRecord};
use vstd::prelude::*;

verus! {

/// The status a rejection maps to: 401 for a wrong credential, 400 for
/// missing or malformed credential material.
pub open spec fn rejection_status(r: Rejection) -> u16 {
    match r {
        Rejection::Unauthorized => 401,
        Rejection::BadRequest => 400,
    }
}

/// The status an authentication outcome maps to; an ignored event is a
/// success.
pub open spec fn outcome_status(o: AuthOutcome) -> u16 {
    match o {
        AuthOutcome::Authorized => 200,
        AuthOutcome::Rejected(r) => rejection_status(r),
        AuthOutcome::Ignored => 200,
    }
}

/// The status an authentication outcome maps to.
pub fn status_of_outcome(o: AuthOutcome) -> (r: u16)
    ensures
        r == outcome_status(o),
{
    match o {
        AuthOutcome::Authorized => 200,
        AuthOutcome::Rejected(Rejection::Unauthorized) => 401,
        AuthOutcome::Rejected(Rejection::BadRequest) => 400,
        AuthOutcome::Ignored => 200,
    }
}

/// One response: its status code and the records serialized as its body.
pub struct HookResponse {
    pub status: u16,
    pub records: Vec<UpdateRecord>,
}

/// The response one request yields, given the update command's captured
/// outcome. The command's outcome enters the decision only when the
/// request is authorized; every other path carries no records.
pub open spec fn response_spec(
    policy: PolicyModel,
    c: CredModel,
    body: Seq<u8>,
    exit_ok: bool,
    out: Seq<u8>,
) -> (u16, Seq<RecordModel>) {
    match decide(policy, c, body) {
        AuthOutcome::Authorized => match classify_spec(exit_ok, out) {
            Result::Ok(rs) => (200, rs),
            Result::Err(_) => (500, Seq::empty()),
        },
        AuthOutcome::Rejected(r) => (rejection_status(r), Seq::empty()),
        AuthOutcome::Ignored => (200, Seq::empty()),
    }
}

/// Decide one request end to end: authenticate it and, when authorized,
/// relay what the update command's captured outcome denotes.
///
/// The caller runs the command itself and passes its outcome in; on every
/// path that is not authorized the outcome is ignored, as
/// [`response_spec`] states.
pub fn handle_request(
    policy: &AuthPolicy,
    creds: &Credentials,
    chunks: &Vec<Vec<u8>>,
    exit_ok: bool,
    stdout: &Vec<u8>,
) -> (r: HookResponse)
    ensures
        r.status == response_spec(
            policy@,
            creds@,
            chunks.deep_view().flatten(),
            exit_ok,
            stdout@,
        ).0,
        view_records(r.records@) == response_spec(
            policy@,
            creds@,
            chunks.deep_view().flatten(),
            exit_ok,
            stdout@,
        ).1,
{
    let outcome = authenticate(policy, creds, chunks);
    match outcome {
        AuthOutcome::Authorized => match classify_output(exit_ok, stdout) {
            Result::Ok(records) => HookResponse { status: 200, records },
            Result::Err(_) => {
                let records: Vec<UpdateRecord> = Vec::new();
                proof {
                    assert(view_records(records@) =~= Seq::<RecordModel>::empty());
                }
                HookResponse { status: 500, records }
            },
        },
        _ => {
            let records: Vec<UpdateRecord> = Vec::new();
            proof {
                assert(view_records(records@) =~= Seq::<RecordModel>::empty());
            }
            HookResponse { status: status_of_outcome(outcome), records }
        },
    }
}

/// An authorized request passes the command's records through unchanged,
/// with status 200; a failed invocation yields 500 and no records.
pub proof fn lemma_authorized_relays_outcome(
    policy: PolicyModel,
    c: CredModel,
    body: Seq<u8>,
    exit_ok: bool,
    out: Seq<u8>,
)
    requires
        decide(policy, c, body) == AuthOutcome::Authorized,
    ensures
        classify_spec(exit_ok, out) matches Result::Ok(rs) ==> response_spec(
            policy,
            c,
            body,
            exit_ok,
            out,
        ) == (200u16, rs),
        classify_spec(exit_ok, out) is Err ==> response_spec(policy, c, body, exit_ok, out) == (
            500u16,
            Seq::<RecordModel>::empty(),
        ),
        !exit_ok ==> classify_spec(exit_ok, out) == Result::<
            Seq<RecordModel>,
            InvocationError,
        >::Err(InvocationError::ExecutionFailed),
{
}

} // verus!
