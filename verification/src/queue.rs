//! The queue through which accepted connections pass to the workers.

use vstd::prelude::*;

verus! {

/// Connections that were accepted and that no worker has claimed yet, the
/// one accepted last at the end. Whoever shares a queue guards it with a
/// lock, and holds the lock for one [`push`](DispatchQueue::push) or one
/// [`try_claim`](DispatchQueue::try_claim) at a time.
pub struct DispatchQueue<T> {
    waiting: Vec<T>,
}

impl<T> View for DispatchQueue<T> {
    type V = Seq<T>;

    closed spec fn view(&self) -> Seq<T> {
        self.waiting@
    }
}

impl<T> DispatchQueue<T> {
    /// A queue in which nothing waits.
    pub fn new() -> (queue: Self)
        ensures
            queue@ == Seq::<T>::empty(),
    {
        DispatchQueue { waiting: Vec::new() }
    }

    /// Puts a connection at the end of the queue. Nothing else changes, and
    /// the queue never refuses.
    pub fn push(&mut self, connection: T)
        ensures
            final(self)@ == old(self)@.push(connection),
    {
        self.waiting.push(connection);
    }

    /// Takes a connection out of the queue, if one waits: the one that was
    /// put in last. What is handed out is in the queue no more, and the
    /// others wait as before.
    pub fn try_claim(&mut self) -> (claimed: Option<T>)
        ensures
            match claimed {
                Some(connection) => old(self)@.len() > 0 && connection == old(self)@.last()
                    && final(self)@ == old(self)@.drop_last(),
                None => old(self)@.len() == 0 && final(self)@ == old(self)@,
            },
    {
        self.waiting.pop()
    }

    /// How many connections wait.
    pub fn len(&self) -> (waiting: usize)
        ensures
            waiting == self@.len(),
    {
        self.waiting.len()
    }

    /// Whether no connection waits.
    pub fn is_empty(&self) -> (empty: bool)
        ensures
            empty == (self@.len() == 0),
    {
        self.waiting.len() == 0
    }
}

/// What was claimed had been pushed: a claim right after a push hands out
/// the connection that was pushed and leaves the queue as it was before.
pub proof fn claim_undoes_push<T>(waiting: Seq<T>, connection: T)
    ensures
        waiting.push(connection).len() > 0,
        waiting.push(connection).last() == connection,
        waiting.push(connection).drop_last() == waiting,
{
    assert(waiting.push(connection).drop_last() =~= waiting);
}

} // verus!
