//! An actor that passes a ping on to its subscribers.

use vstd::prelude::*;

verus! {

/// A ping that carries the id of the actor it comes from.
pub struct Ping(pub usize);

/// An actor with an id and the recipients that it pings in turn. `R` is
/// whatever the application reaches a recipient by.
pub struct MyActor<R> {
    id: usize,
    subscribers: Vec<R>,
}

impl<R> MyActor<R> {
    pub fn new(id: usize, subscribers: Vec<R>) -> (actor: Self)
        ensures
            actor.id() == id,
            actor.subscribers() == subscribers,
    {
        Self { id, subscribers }
    }

    pub closed spec fn id(&self) -> usize {
        self.id
    }

    pub closed spec fn subscribers(&self) -> Vec<R> {
        self.subscribers
    }

    /// The id of this actor.
    pub fn get_id(&self) -> (id: usize)
        ensures
            id == self.id(),
    {
        self.id
    }

    /// The recipients, in the order in which they are pinged.
    pub fn get_subscribers(&self) -> (s: &Vec<R>)
        ensures
            *s == self.subscribers(),
    {
        &self.subscribers
    }

    /// Answers a ping from anyone: one ping for each subscriber, in their
    /// order, each carrying this actor's id.
    pub fn handle(&self, msg: Ping) -> (out: Vec<Ping>)
        ensures
            out@.len() == self.subscribers()@.len(),
            forall|i: int| 0 <= i < out@.len() ==> (#[trigger] out@[i]).0 == self.id(),
    {
        let mut out: Vec<Ping> = Vec::new();
        let mut i: usize = 0;
        while i < self.subscribers.len()
            invariant
                i <= self.subscribers@.len(),
                out@.len() == i,
                forall|j: int| 0 <= j < out@.len() ==> (#[trigger] out@[j]).0 == self.id,
            decreases self.subscribers@.len() - i,
        {
            out.push(Ping(self.id));
            i += 1;
        }
        out
    }
}

} // verus!
