//! What the bus does with one invocation that arrived on a subscribed
//! subject: the antiforgery test, the handoff to the worker, and the reply.

use crate::channel::WorkerLink;
use crate::invocation::{
    error_response,
    success_response,
    Invocation,
    InvocationResponse,
    InvocationResponseView,
    InvocationView,
};
use vstd::prelude::*;
use vstd::string::StringExecFns;

verus! {

/// How every rejection message begins.
pub const ANTIFORGERY_FAILURE: &'static str = "Antiforgery check failure: ";

/// The response that turns away `inv` because its antiforgery check failed
/// for `reason`.
pub open spec fn rejection(inv: InvocationView, reason: Seq<char>) -> InvocationResponseView {
    error_response(inv, ANTIFORGERY_FAILURE@ + reason)
}

/// What is to be done with an invocation, given the outcome of its
/// antiforgery check.
#[derive(Debug, PartialEq, Eq)]
pub enum Verdict {
    /// The invocation is authentic: it goes to the worker.
    Forward(Invocation),
    /// The invocation is turned away with this response; the worker never
    /// sees it.
    Reject(InvocationResponse),
}

/// What became of one invocation.
#[derive(Debug, PartialEq, Eq)]
pub enum Handled {
    /// The antiforgery check failed. The response says so, and the worker saw
    /// nothing.
    Rejected(InvocationResponse),
    /// The worker took the invocation and answered with this response.
    Answered(InvocationResponse),
    /// The worker's receiving end is gone: the invocation comes back
    /// undelivered.
    WorkerGone(Invocation),
    /// The worker took the invocation and went away without answering.
    WorkerSilent,
}

impl Handled {
    /// The responses to publish for this outcome: one where the invocation
    /// was rejected or answered, none where the worker was lost.
    pub open spec fn replies(self) -> Seq<InvocationResponseView> {
        match self {
            Handled::Rejected(response) => seq![response@],
            Handled::Answered(response) => seq![response@],
            Handled::WorkerGone(_) => Seq::empty(),
            Handled::WorkerSilent => Seq::empty(),
        }
    }

    /// The response to publish on the message's reply subject, if any.
    pub fn into_reply(self) -> (reply: Option<InvocationResponse>)
        ensures
            match reply {
                Some(response) => self.replies() == seq![response@],
                None => self.replies() == Seq::<InvocationResponseView>::empty(),
            },
    {
        match self {
            Handled::Rejected(response) => Some(response),
            Handled::Answered(response) => Some(response),
            Handled::WorkerGone(_) => None,
            Handled::WorkerSilent => None,
        }
    }
}

/// An invocation whose antiforgery check passed goes forward untouched; one
/// whose check failed is answered with [`rejection`].
pub fn antiforgery_verdict(inv: Invocation, check: Result<(), String>) -> (verdict: Verdict)
    ensures
        match check {
            Ok(()) => verdict == Verdict::Forward(inv),
            Err(reason) => verdict matches Verdict::Reject(response) && response@ == rejection(
                inv@,
                reason@,
            ),
        },
{
    match check {
        Ok(()) => Verdict::Forward(inv),
        Err(reason) => {
            let mut message = String::from_str(ANTIFORGERY_FAILURE);
            message.append(reason.as_str());
            Verdict::Reject(InvocationResponse::error(&inv, message.as_str()))
        },
    }
}

/// Handles one received invocation, `check` being the outcome of its
/// antiforgery check.
///
/// A failed check is answered at once and nothing reaches the worker.
/// Otherwise the invocation is sent to the worker and the worker's next
/// response is the reply; both steps wait on the worker without a deadline.
/// Where the worker is gone there is no reply.
pub fn handle_invocation(inv: Invocation, check: Result<(), String>, link: &mut WorkerLink) -> (out:
    Handled)
    ensures
        final(link).ends() == old(link).ends(),
        out.replies().len() == 1 ==> final(link).forwarded().len() - final(link).answers().len()
            == old(link).forwarded().len() - old(link).answers().len(),
        match check {
            Err(reason) => {
                &&& out matches Handled::Rejected(response)
                &&& response@ == rejection(inv@, reason@)
                &&& final(link).forwarded() == old(link).forwarded()
                &&& final(link).answers() == old(link).answers()
            },
            Ok(()) => match out {
                Handled::Rejected(_) => false,
                Handled::Answered(response) => {
                    &&& final(link).forwarded() == old(link).forwarded().push(inv@)
                    &&& final(link).answers() == old(link).answers().push(response@)
                },
                Handled::WorkerGone(back) => {
                    &&& back == inv
                    &&& final(link).forwarded() == old(link).forwarded()
                    &&& final(link).answers() == old(link).answers()
                },
                Handled::WorkerSilent => {
                    &&& final(link).forwarded() == old(link).forwarded().push(inv@)
                    &&& final(link).answers() == old(link).answers()
                },
            },
        },
{
    match antiforgery_verdict(inv, check) {
        Verdict::Reject(response) => Handled::Rejected(response),
        Verdict::Forward(inv) => match link.forward(inv) {
            Err(back) => Handled::WorkerGone(back),
            Ok(()) => match link.await_response() {
                Some(response) => Handled::Answered(response),
                None => Handled::WorkerSilent,
            },
        },
    }
}

/// Every handled invocation gets at most one reply, and exactly one unless
/// the worker was lost.
pub proof fn lemma_single_reply(out: Handled)
    ensures
        out.replies().len() <= 1,
        out.replies().len() == 1 <==> (out is Rejected || out is Answered),
{
}

/// Where the worker answers an invocation with a successful response that
/// carries `payload`, that response is the one reply, and the reply carries
/// `payload`.
pub proof fn lemma_answer_is_relayed(out: Handled, inv: InvocationView, payload: Seq<u8>)
    requires
        out matches Handled::Answered(response) && response@ == success_response(inv, payload),
    ensures
        out.replies() == seq![success_response(inv, payload)],
        out.replies()[0].payload == payload,
        out.replies()[0].error is None,
{
}

/// A rejection is an error response to the same invocation whose message
/// begins with [`ANTIFORGERY_FAILURE`] and goes on with the reason.
pub proof fn lemma_rejection_names_antiforgery(inv: InvocationView, reason: Seq<char>)
    ensures
        rejection(inv, reason).invocation_id == inv.id,
        rejection(inv, reason).payload.len() == 0,
        rejection(inv, reason).error matches Some(message) && ANTIFORGERY_FAILURE@.is_prefix_of(
            message,
        ) && message.skip(ANTIFORGERY_FAILURE@.len() as int) == reason,
{
    let message = ANTIFORGERY_FAILURE@ + reason;
    assert(message.subrange(0, ANTIFORGERY_FAILURE@.len() as int) =~= ANTIFORGERY_FAILURE@);
    assert(message.skip(ANTIFORGERY_FAILURE@.len() as int) =~= reason);
}

} // verus!
