//! The two webhook headers the gateway reads, as plain values: the
//! signature header and the event-name header. The HTTP layer decodes the
//! raw header values and hands them in as strings.

use vstd::prelude::*;

verus! {

/// The value of the `x-hub-signature-256` header: a scheme prefix, `=`,
/// and a claimed hex digest.
pub struct GithubSignature256(pub String);

impl GithubSignature256 {
    /// The header's name on the wire.
    pub fn name() -> (r: &'static str)
        ensures
            r@ == "x-hub-signature-256"@,
    {
        "x-hub-signature-256"
    }
}

/// The value of the `x-github-event` header: the sender's event name.
pub struct GithubEvent(pub String);

impl GithubEvent {
    /// The header's name on the wire.
    pub fn name() -> (r: &'static str)
        ensures
            r@ == "x-github-event"@,
    {
        "x-github-event"
    }
}

} // verus!
