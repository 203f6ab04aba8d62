//! The pair of channels that joins the bus to one in-process worker.
//!
//! Invocations go out to the worker on one channel and its responses come
//! back on the other. Both are crossbeam channels; what the bus does with
//! them is recorded in a [`WorkerLink`].

use crate::invocation::{Invocation, InvocationResponse, InvocationResponseView, InvocationView};
use crossbeam::channel::{Receiver, Sender};
use vstd::prelude::*;

verus! {

/// crossbeam's `Sender`, the sending end of a channel. Nothing inside it is
/// visible here.
#[verifier::external_type_specification]
#[verifier::external_body]
#[verifier::reject_recursive_types(T)]
pub struct ExSender<T>(Sender<T>);

/// crossbeam's `Receiver`, the receiving end of a channel. Nothing inside it
/// is visible here.
#[verifier::external_type_specification]
#[verifier::external_body]
#[verifier::reject_recursive_types(T)]
pub struct ExReceiver<T>(Receiver<T>);

/// The channel ends of one worker: where its invocations go in, and where
/// its responses come out.
pub type InvokerPair = (Sender<Invocation>, Receiver<InvocationResponse>);

/// The channel that a sending end feeds. All that is known of it is that a
/// clone of an end feeds the channel that the end feeds, which crossbeam
/// reports by `Sender::same_channel`.
pub uninterp spec fn sender_channel(end: Sender<Invocation>) -> int;

/// The channel that a receiving end drains. All that is known of it is that
/// a clone of an end drains the channel that the end drains, which crossbeam
/// reports by `Receiver::same_channel`.
pub uninterp spec fn receiver_channel(end: Receiver<InvocationResponse>) -> int;

/// Whether `a` and `b` are ends of the same two channels.
pub open spec fn same_channels(a: InvokerPair, b: InvokerPair) -> bool {
    sender_channel(a.0) == sender_channel(b.0) && receiver_channel(a.1) == receiver_channel(b.1)
}

/// `Sender::clone` of crossbeam: the new end feeds the channel that `end`
/// feeds.
#[verifier::external_body]
pub(crate) fn clone_sender(end: &Sender<Invocation>) -> (copy: Sender<Invocation>)
    ensures
        sender_channel(copy) == sender_channel(*end),
{
    end.clone()
}

/// `Receiver::clone` of crossbeam: the new end drains the channel that `end`
/// drains.
#[verifier::external_body]
pub(crate) fn clone_receiver(end: &Receiver<InvocationResponse>) -> (copy: Receiver<
    InvocationResponse,
>)
    ensures
        receiver_channel(copy) == receiver_channel(*end),
{
    end.clone()
}

/// `Sender::send` of crossbeam, which blocks while the channel is full. It
/// fails only when every receiving end is gone, and then hands the message
/// back. Whether it succeeds is up to the other side, so nothing is claimed
/// of that.
#[verifier::external_body]
fn send_invocation(end: &Sender<Invocation>, inv: Invocation) -> (sent: Result<(), Invocation>)
    ensures
        sent matches Err(back) ==> back == inv,
{
    match end.send(inv) {
        Ok(()) => Ok(()),
        Err(refused) => Err(refused.0),
    }
}

/// `Receiver::recv` of crossbeam, which blocks until a message arrives. It
/// fails only when the channel is empty and every sending end is gone. What
/// arrives is up to the other side, so nothing is claimed of it.
#[verifier::external_body]
fn recv_response(end: &Receiver<InvocationResponse>) -> (got: Option<InvocationResponse>) {
    match end.recv() {
        Ok(response) => Some(response),
        Err(_) => None,
    }
}

/// The two channel ends of a worker, with a record of what has passed
/// through them by way of this link.
pub struct WorkerLink {
    sender: Sender<Invocation>,
    receiver: Receiver<InvocationResponse>,
    forwarded: Ghost<Seq<InvocationView>>,
    answers: Ghost<Seq<InvocationResponseView>>,
}

impl WorkerLink {
    /// The channel ends that this link uses.
    pub closed spec fn ends(&self) -> InvokerPair {
        (self.sender, self.receiver)
    }

    /// The invocations that the worker's channel has accepted from this
    /// link, oldest first.
    pub closed spec fn forwarded(&self) -> Seq<InvocationView> {
        self.forwarded@
    }

    /// The responses that this link has taken from the worker, oldest first.
    pub closed spec fn answers(&self) -> Seq<InvocationResponseView> {
        self.answers@
    }

    /// A link over the two ends, through which nothing has passed yet.
    pub fn new(sender: Sender<Invocation>, receiver: Receiver<InvocationResponse>) -> (link:
        WorkerLink)
        ensures
            link.ends() == (sender, receiver),
            link.forwarded() == Seq::<InvocationView>::empty(),
            link.answers() == Seq::<InvocationResponseView>::empty(),
    {
        WorkerLink {
            sender,
            receiver,
            forwarded: Ghost(Seq::empty()),
            answers: Ghost(Seq::empty()),
        }
    }

    /// A link over fresh clones of the ends of `pair`.
    pub fn for_pair(pair: &InvokerPair) -> (link: WorkerLink)
        ensures
            same_channels(link.ends(), *pair),
            link.forwarded() == Seq::<InvocationView>::empty(),
            link.answers() == Seq::<InvocationResponseView>::empty(),
    {
        WorkerLink::new(clone_sender(&pair.0), clone_receiver(&pair.1))
    }

    /// Hands `inv` to the worker, waiting while its channel is full. When the
    /// worker's receiving end is gone the invocation comes back.
    pub fn forward(&mut self, inv: Invocation) -> (sent: Result<(), Invocation>)
        ensures
            final(self).ends() == old(self).ends(),
            final(self).answers() == old(self).answers(),
            match sent {
                Ok(()) => final(self).forwarded() == old(self).forwarded().push(inv@),
                Err(back) => back == inv && final(self).forwarded() == old(self).forwarded(),
            },
    {
        let ghost view = inv@;
        let sent = send_invocation(&self.sender, inv);
        if sent.is_ok() {
            proof {
                self.forwarded@ = self.forwarded@.push(view);
            }
        }
        sent
    }

    /// Waits for the worker's next response. `None` when the worker's
    /// sending end is gone and nothing is left to take.
    pub fn await_response(&mut self) -> (got: Option<InvocationResponse>)
        ensures
            final(self).ends() == old(self).ends(),
            final(self).forwarded() == old(self).forwarded(),
            match got {
                Some(response) => final(self).answers() == old(self).answers().push(response@),
                None => final(self).answers() == old(self).answers(),
            },
    {
        let got = recv_response(&self.receiver);
        self.record_answer(got)
    }

    /// Enters what the worker's channel gave into the record of answers, and
    /// hands it on as it is.
    fn record_answer(&mut self, got: Option<InvocationResponse>) -> (same: Option<
        InvocationResponse,
    >)
        ensures
            same == got,
            final(self).ends() == old(self).ends(),
            final(self).forwarded() == old(self).forwarded(),
            match got {
                Some(response) => final(self).answers() == old(self).answers().push(response@),
                None => final(self).answers() == old(self).answers(),
            },
    {
        if let Some(response) = &got {
            proof {
                self.answers@ = self.answers@.push(response@);
            }
        }
        got
    }
}

} // verus!
