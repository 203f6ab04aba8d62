//! The in-process routing table: which worker answers for which subject.

use crate::channel::{clone_receiver, clone_sender, same_channels, InvokerPair};
use crate::invocation::{Invocation, InvocationResponse};
use crate::table::SubjectTable;
use crossbeam::channel::{Receiver, Sender};
use vstd::prelude::*;

verus! {

/// Maps a subject id to the channel ends of the worker that serves it.
pub struct Router {
    routes: SubjectTable<InvokerPair>,
}

impl View for Router {
    type V = Map<Seq<char>, InvokerPair>;

    closed spec fn view(&self) -> Map<Seq<char>, InvokerPair> {
        self.routes@
    }
}

impl Default for Router {
    /// A router without routes.
    fn default() -> (router: Router)
        ensures
            router@ == Map::<Seq<char>, InvokerPair>::empty(),
    {
        Router { routes: SubjectTable::new() }
    }
}

impl Router {
    /// Routes `id` to the worker behind `inv_s` and `resp_r`. A route that
    /// `id` had before is replaced; every other route stays.
    pub fn add_route(
        &mut self,
        id: String,
        inv_s: Sender<Invocation>,
        resp_r: Receiver<InvocationResponse>,
    )
        ensures
            final(self)@ == old(self)@.insert(id@, (inv_s, resp_r)),
    {
        self.routes.insert(id, (inv_s, resp_r));
    }

    /// The worker that `id` is routed to: fresh ends of the very channels
    /// that were registered for it, or `None` where `id` has no route.
    pub fn get_pair(&self, id: &str) -> (pair: Option<InvokerPair>)
        ensures
            match pair {
                Some(ends) => self@.contains_key(id@) && same_channels(ends, self@[id@]),
                None => !self@.contains_key(id@),
            },
    {
        match self.routes.get(id) {
            Some(p) => Some((clone_sender(&p.0), clone_receiver(&p.1))),
            None => None,
        }
    }
}

/// A lookup sees the route that was added last for its subject, and adding a
/// route for one subject changes no other.
pub proof fn lemma_last_route_wins(
    routes: Map<Seq<char>, InvokerPair>,
    id: Seq<char>,
    first: InvokerPair,
    second: InvokerPair,
    other: Seq<char>,
)
    requires
        other != id,
    ensures
        routes.insert(id, first).insert(id, second) == routes.insert(id, second),
        routes.insert(id, second).contains_key(id),
        routes.insert(id, second)[id] == second,
        routes.insert(id, second).contains_key(other) == routes.contains_key(other),
        routes.contains_key(other) ==> routes.insert(id, second)[other] == routes[other],
{
    assert(routes.insert(id, first).insert(id, second) =~= routes.insert(id, second));
}

} // verus!
