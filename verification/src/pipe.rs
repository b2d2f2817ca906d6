//! The channel pair between one client and the service.

use vstd::prelude::*;
use crate::api::{Reply, Request};
use crate::error::Error;

verus! {

/// A first-in, first-out queue that holds at most a fixed number of items.
#[derive(Debug, PartialEq, Eq)]
pub struct Queue<T> {
    items: Vec<T>,
    limit: usize,
}

impl<T> View for Queue<T> {
    type V = Seq<T>;

    /// The queued items, the next to leave first.
    closed spec fn view(&self) -> Seq<T> {
        self.items@
    }
}

impl<T> Queue<T> {
    #[verifier::type_invariant]
    spec fn within_limit(&self) -> bool {
        self.items@.len() <= self.limit
    }

    /// The number of items that the queue can hold.
    pub closed spec fn spec_capacity(&self) -> nat {
        self.limit as nat
    }

    /// An empty queue that can hold `capacity` items.
    pub fn new(capacity: usize) -> (queue: Self)
        ensures
            queue@ == Seq::<T>::empty(),
            queue.spec_capacity() == capacity,
    {
        Queue { items: Vec::new(), limit: capacity }
    }

    /// The number of items that the queue can hold.
    pub fn capacity(&self) -> (capacity: usize)
        ensures
            capacity == self.spec_capacity(),
    {
        self.limit
    }

    /// The number of queued items.
    pub fn len(&self) -> (len: usize)
        ensures
            len == self@.len(),
            len <= self.spec_capacity(),
    {
        proof {
            use_type_invariant(self);
        }
        self.items.len()
    }

    /// Whether the queue can take one more item.
    pub fn ready(&self) -> (ready: bool)
        ensures
            ready == (self@.len() < self.spec_capacity()),
    {
        self.items.len() < self.limit
    }

    /// Appends `item`, or hands it back where the queue is full.
    pub fn enqueue(&mut self, item: T) -> (result: Result<(), T>)
        ensures
            final(self).spec_capacity() == old(self).spec_capacity(),
            old(self)@.len() < old(self).spec_capacity() ==> result is Ok && final(self)@ == old(
                self,
            )@.push(item),
            old(self)@.len() >= old(self).spec_capacity() ==> result == Err::<(), T>(item)
                && final(self)@ == old(self)@,
    {
        if self.items.len() < self.limit {
            let mut items: Vec<T> = Vec::new();
            std::mem::swap(&mut self.items, &mut items);
            items.push(item);
            self.items = items;
            Ok(())
        } else {
            Err(item)
        }
    }

    /// Removes and returns the oldest item, if there is one.
    pub fn dequeue(&mut self) -> (item: Option<T>)
        ensures
            final(self).spec_capacity() == old(self).spec_capacity(),
            old(self)@.len() > 0 ==> item == Some(old(self)@[0]) && final(self)@ == old(
                self,
            )@.drop_first(),
            old(self)@.len() == 0 ==> item is None && final(self)@ == old(self)@,
    {
        if self.items.len() > 0 {
            proof {
                use_type_invariant(&*self);
            }
            let mut items: Vec<T> = Vec::new();
            std::mem::swap(&mut self.items, &mut items);
            let item = items.remove(0);
            assert(items@ =~= old(self).items@.drop_first());
            self.items = items;
            Some(item)
        } else {
            None
        }
    }
}

/// The queues of one endpoint, as plain values.
pub struct EndpointView {
    /// The requests waiting to be served, the next to be served first.
    pub inbound: Seq<Request>,
    /// The answers waiting to be collected, the oldest first.
    pub outbound: Seq<Result<Reply, Error>>,
    /// How many requests can wait.
    pub inbound_capacity: nat,
    /// How many answers can wait.
    pub outbound_capacity: nat,
}

impl EndpointView {
    /// Whether one more answer can be queued.
    pub open spec fn ready(self) -> bool {
        self.outbound.len() < self.outbound_capacity
    }

    /// Whether a pass of the service serves a request of this endpoint.
    pub open spec fn due(self) -> bool {
        self.ready() && self.inbound.len() > 0
    }

    /// The endpoint after its oldest request was answered with `answer`.
    pub open spec fn answered(self, answer: Result<Reply, Error>) -> EndpointView {
        EndpointView {
            inbound: self.inbound.drop_first(),
            outbound: self.outbound.push(answer),
            inbound_capacity: self.inbound_capacity,
            outbound_capacity: self.outbound_capacity,
        }
    }
}

/// The service's side of the channel pair of one client: requests come in
/// through `recv`, answers go out through `send`.
#[derive(Debug, PartialEq, Eq)]
pub struct ServiceEndpoint {
    pub recv: Queue<Request>,
    pub send: Queue<Result<Reply, Error>>,
}

impl View for ServiceEndpoint {
    type V = EndpointView;

    open spec fn view(&self) -> EndpointView {
        EndpointView {
            inbound: self.recv@,
            outbound: self.send@,
            inbound_capacity: self.recv.spec_capacity(),
            outbound_capacity: self.send.spec_capacity(),
        }
    }
}

impl ServiceEndpoint {
    /// An endpoint with empty queues of the given capacities.
    pub fn new(inbound_capacity: usize, outbound_capacity: usize) -> (endpoint: Self)
        ensures
            endpoint@ == (EndpointView {
                inbound: Seq::empty(),
                outbound: Seq::empty(),
                inbound_capacity: inbound_capacity as nat,
                outbound_capacity: outbound_capacity as nat,
            }),
    {
        ServiceEndpoint { recv: Queue::new(inbound_capacity), send: Queue::new(outbound_capacity) }
    }
}

} // verus!
