//! An actor that adds up what it is pinged with.

use vstd::prelude::*;

verus! {

/// A ping that carries an amount.
pub struct Ping(pub usize);

/// Keeps a running total.
pub struct MyActor {
    pub count: usize,
}

impl MyActor {
    /// Adds the ping's amount to the total and answers with the new total.
    /// The total has to fit in a `usize`.
    pub fn handle(&mut self, msg: Ping) -> (total: usize)
        requires
            old(self).count + msg.0 <= usize::MAX,
        ensures
            total == old(self).count + msg.0,
            final(self).count == total,
    {
        self.count += msg.0;
        self.count
    }

    /// As [`MyActor::handle`], for any ping: `None`, and the total as it was,
    /// where the new total would not fit.
    pub fn try_handle(&mut self, msg: Ping) -> (total: Option<usize>)
        ensures
            old(self).count + msg.0 <= usize::MAX ==> total == Some(
                (old(self).count + msg.0) as usize,
            ) && final(self).count == old(self).count + msg.0,
            old(self).count + msg.0 > usize::MAX ==> total.is_none() && final(self).count == old(
                self,
            ).count,
    {
        if msg.0 <= usize::MAX - self.count {
            Some(self.handle(msg))
        } else {
            None
        }
    }
}

} // verus!
