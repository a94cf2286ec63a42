//! The response poller's control logic: when the background loop may call
//! the transport, and what it does with each outcome. The loop itself, its
//! suspension and its channel live in the embedding program; every decision
//! it takes is fixed here.

use vstd::prelude::*;
use crate::errors::ChatErrorWithMsg;
use crate::session::SessionView;
use crate::types::Response;

verus! {

/// What one turn of the poller loop does.
#[derive(Clone, Copy, PartialEq, Eq, Structural, Debug)]
pub enum PollAction {
    /// Suspend until registration; no transport call is made.
    Wait,
    /// Issue one fetch-pending call.
    Fetch,
}

/// The action one poller turn takes: fetch once registered, wait before.
pub open spec fn spec_poller_step(registered: bool) -> PollAction {
    if registered {
        PollAction::Fetch
    } else {
        PollAction::Wait
    }
}

/// Decides one turn of the poller loop, as [`spec_poller_step`] states.
pub fn poller_step(registered: bool) -> (r: PollAction)
    ensures
        r == spec_poller_step(registered),
{
    if registered {
        PollAction::Fetch
    } else {
        PollAction::Wait
    }
}

/// What the poller does with one fetch outcome: a delivered response is
/// emitted as an event, a transport failure is skipped silently and the
/// loop goes on.
pub fn poller_on_result(outcome: Result<Response, ChatErrorWithMsg>) -> (r: Option<Response>)
    ensures
        match outcome {
            Result::Ok(rsp) => r matches Option::Some(out) && out@ == rsp@,
            Result::Err(_) => r is None,
        },
{
    match outcome {
        Result::Ok(rsp) => Option::Some(rsp),
        Result::Err(_) => Option::None,
    }
}

/// While unregistered the poller makes no transport call; from the moment
/// the session registers, its next turn issues the fetch.
pub proof fn lemma_poller_gated(before: SessionView, after: SessionView)
    requires
        !before.registered,
        after.registered,
    ensures
        spec_poller_step(before.registered) == PollAction::Wait,
        spec_poller_step(after.registered) == PollAction::Fetch,
{
}

} // verus!
