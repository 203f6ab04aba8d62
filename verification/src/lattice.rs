//! The distributed bus: the subscriptions that one host holds on the
//! lattice, and the shape of the calls that it sends out.
//!
//! The bus decides; its owner talks to the transport. Each method takes what
//! the transport or the codec returned and says what follows from it.

use crate::config::{get_timeout, text_of, timeout_setting};
use crate::table::{lists_values_of, SubjectTable};
use vstd::prelude::*;
use vstd::string::StringExecFns;

verus! {

/// Why an operation on the bus failed.
#[derive(Clone, Debug, PartialEq, Eq)]
pub enum BusError {
    /// The invocation could not be encoded for the wire.
    Encode(String),
    /// The transport failed to connect, publish or subscribe.
    Transport(String),
    /// No reply arrived before the deadline.
    Timeout(String),
    /// The reply could not be decoded.
    Decode(String),
}

/// A request to put on the wire: publish `body` on `subject` and wait for
/// one reply, `timeout_millis` at most.
#[derive(Clone, Debug, PartialEq, Eq)]
pub struct Request {
    pub subject: String,
    pub body: Vec<u8>,
    pub timeout_millis: u64,
}

/// The subscriptions that are left once `subject` is subscribed to with
/// `handle`.
pub open spec fn after_subscribe<H>(
    subscriptions: Map<Seq<char>, H>,
    subject: Seq<char>,
    handle: H,
) -> Map<Seq<char>, H> {
    subscriptions.insert(subject, handle)
}

/// The subscriptions that are left once `subject` is unsubscribed from.
pub open spec fn after_unsubscribe<H>(subscriptions: Map<Seq<char>, H>, subject: Seq<char>) -> Map<
    Seq<char>,
    H,
> {
    subscriptions.remove(subject)
}

/// The handle that unsubscribing from `subject` gives up for cancelling.
pub open spec fn given_up<H>(subscriptions: Map<Seq<char>, H>, subject: Seq<char>) -> Option<H> {
    if subscriptions.contains_key(subject) {
        Some(subscriptions[subject])
    } else {
        None
    }
}

/// The subscriptions of one host, each with the handle `H` by which the
/// transport cancels it, and the deadline of the calls that the host makes.
pub struct DistributedBus<H> {
    subs: SubjectTable<H>,
    req_timeout: u64,
}

impl<H> DistributedBus<H> {
    /// The handle of each subject that the bus is subscribed to.
    pub closed spec fn subscriptions(&self) -> Map<Seq<char>, H> {
        self.subs@
    }

    /// How long a call waits for its reply, in milliseconds.
    pub closed spec fn timeout_millis(&self) -> u64 {
        self.req_timeout
    }

    /// A bus without subscriptions, whose deadline is what the timeout
    /// variable gives (`timeout` is its value, `None` where it is unset).
    pub fn new(timeout: Option<String>) -> (bus: Self)
        ensures
            bus.subscriptions() == Map::<Seq<char>, H>::empty(),
            bus.timeout_millis() == timeout_setting(text_of(timeout)),
    {
        DistributedBus { subs: SubjectTable::new(), req_timeout: get_timeout(timeout) }
    }

    /// How long a call waits for its reply, in milliseconds.
    pub fn req_timeout(&self) -> (millis: u64)
        ensures
            millis == self.timeout_millis(),
    {
        self.req_timeout
    }

    /// The queue group in which the bus subscribes to `subject`: the subject
    /// itself, so that the hosts subscribed to one subject share its load.
    pub fn queue_group(subject: &str) -> (group: String)
        ensures
            group@ == subject@,
    {
        String::from_str(subject)
    }

    /// Whether the bus holds a subscription to `subject`.
    pub fn is_subscribed(&self, subject: &str) -> (active: bool)
        ensures
            active == self.subscriptions().contains_key(subject@),
    {
        self.subs.contains_key(subject)
    }

    /// Records the outcome of opening a subscription to `subject`. A handle
    /// is kept under the subject, in place of one kept for it before; a
    /// failure of the transport comes back as it is and changes nothing.
    pub fn subscribe(&mut self, subject: &str, opened: Result<H, BusError>) -> (done: Result<
        (),
        BusError,
    >)
        ensures
            final(self).timeout_millis() == old(self).timeout_millis(),
            match opened {
                Ok(handle) => done is Ok && final(self).subscriptions() == after_subscribe(
                    old(self).subscriptions(),
                    subject@,
                    handle,
                ),
                Err(error) => done == Err::<(), BusError>(error) && final(self).subscriptions()
                    == old(self).subscriptions(),
            },
    {
        match opened {
            Ok(handle) => {
                self.subs.insert(String::from_str(subject), handle);
                Ok(())
            },
            Err(error) => Err(error),
        }
    }

    /// The request by which `subject` is invoked, `encoded` being the
    /// invocation as the codec encoded it. The deadline is that of the bus.
    /// A failure of the codec comes back as it is, and nothing is requested.
    pub fn invoke(&self, subject: &str, encoded: Result<Vec<u8>, BusError>) -> (request: Result<
        Request,
        BusError,
    >)
        ensures
            match encoded {
                Ok(body) => request matches Ok(r) && r.subject@ == subject@ && r.body == body
                    && r.timeout_millis == self.timeout_millis(),
                Err(error) => request == Err::<Request, BusError>(error),
            },
    {
        match encoded {
            Ok(body) => Ok(
                Request {
                    subject: String::from_str(subject),
                    body,
                    timeout_millis: self.req_timeout,
                },
            ),
            Err(error) => Err(error),
        }
    }

    /// Forgets the subscription to `subject` and returns its handle, for the
    /// transport to cancel. Where there is none, nothing changes and nothing
    /// is to be cancelled.
    pub fn unsubscribe(&mut self, subject: &str) -> (handle: Option<H>)
        ensures
            final(self).timeout_millis() == old(self).timeout_millis(),
            final(self).subscriptions() == after_unsubscribe(old(self).subscriptions(), subject@),
            handle == given_up(old(self).subscriptions(), subject@),
    {
        self.subs.remove(subject)
    }

    /// Forgets every subscription and returns the handles, one for each
    /// subject that was subscribed to, for the transport to cancel.
    pub fn teardown(&mut self) -> (handles: Vec<H>)
        ensures
            final(self).timeout_millis() == old(self).timeout_millis(),
            final(self).subscriptions() == Map::<Seq<char>, H>::empty(),
            lists_values_of(handles@, old(self).subscriptions()),
    {
        self.subs.drain()
    }
}

/// Unsubscribing twice is unsubscribing once: after the first call the
/// subject is gone, and the second finds nothing to cancel and changes
/// nothing.
pub proof fn lemma_unsubscribe_idempotent<H>(subscriptions: Map<Seq<char>, H>, subject: Seq<char>)
    ensures
        !after_unsubscribe(subscriptions, subject).contains_key(subject),
        given_up(after_unsubscribe(subscriptions, subject), subject) is None,
        after_unsubscribe(after_unsubscribe(subscriptions, subject), subject) == after_unsubscribe(
            subscriptions,
            subject,
        ),
{
    assert(subscriptions.remove(subject).remove(subject) =~= subscriptions.remove(subject));
}

/// A subscription lasts from `subscribe` to `unsubscribe`: once subscribed,
/// the subject is held with the handle given last, and unsubscribing gives
/// up that very handle.
pub proof fn lemma_subscription_lifecycle<H>(
    subscriptions: Map<Seq<char>, H>,
    subject: Seq<char>,
    earlier: H,
    handle: H,
)
    ensures
        after_subscribe(subscriptions, subject, handle).contains_key(subject),
        given_up(after_subscribe(subscriptions, subject, handle), subject) == Some(handle),
        after_subscribe(after_subscribe(subscriptions, subject, earlier), subject, handle)
            == after_subscribe(subscriptions, subject, handle),
        !subscriptions.contains_key(subject) ==> after_unsubscribe(
            after_subscribe(subscriptions, subject, handle),
            subject,
        ) == subscriptions,
{
    assert(subscriptions.insert(subject, earlier).insert(subject, handle) =~= subscriptions.insert(
        subject,
        handle,
    ));
    if !subscriptions.contains_key(subject) {
        assert(subscriptions.insert(subject, handle).remove(subject) =~= subscriptions);
    }
}

/// A bus that holds no subscription has no handle to give up at teardown;
/// so a second teardown, right after the first, gives none.
pub proof fn lemma_teardown_leaves_nothing<H>(handles: Seq<H>)
    requires
        lists_values_of(handles, Map::<Seq<char>, H>::empty()),
    ensures
        handles.len() == 0,
{
    let subjects = choose|subjects: Seq<Seq<char>>|
        {
            &&& subjects.no_duplicates()
            &&& subjects.to_set() == Map::<Seq<char>, H>::empty().dom()
            &&& #[trigger] subjects.len() == handles.len()
            &&& forall|i: int|
                0 <= i < subjects.len() ==> handles[i] == Map::<Seq<char>, H>::empty()[subjects[i]]
        };
    if subjects.len() > 0 {
        assert(subjects.to_set().contains(subjects[0]));
    }
}

/// Subscribing to one subject, or unsubscribing from it, leaves the
/// subscription to every other subject as it was.
pub proof fn lemma_other_subjects_untouched<H>(
    subscriptions: Map<Seq<char>, H>,
    subject: Seq<char>,
    handle: H,
    other: Seq<char>,
)
    requires
        other != subject,
    ensures
        given_up(after_subscribe(subscriptions, subject, handle), other) == given_up(
            subscriptions,
            other,
        ),
        given_up(after_unsubscribe(subscriptions, subject), other) == given_up(
            subscriptions,
            other,
        ),
{
}

} // verus!
