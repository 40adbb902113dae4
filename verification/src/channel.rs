use vstd::prelude::*;
use std::collections::VecDeque;

verus! {

/// What a receiver should do next: take the delivered value, give up
/// because every sender is gone, or wait for a sender to act.
pub enum RecvDecision<T> {
    Deliver(T),
    Disconnected,
    Wait,
}

/// The state of the unbounded outbound queue: the values in flight, in
/// arrival order, and how many senders are still alive. A caller wraps it
/// in its own synchronization and consults [`ChannelQueue::try_recv`] for
/// every receive step.
pub struct ChannelQueue<T> {
    queue: VecDeque<T>,
    senders: usize,
}

impl<T> ChannelQueue<T> {
    /// The values in flight, oldest first.
    pub closed spec fn spec_queue(&self) -> Seq<T> {
        self.queue@
    }

    /// How many senders are alive.
    pub closed spec fn spec_senders(&self) -> int {
        self.senders as int
    }

    /// A fresh queue: nothing in flight, one sender.
    pub fn new() -> (r: ChannelQueue<T>)
        ensures
            r.spec_queue() == Seq::<T>::empty(),
            r.spec_senders() == 1,
    {
        ChannelQueue { queue: VecDeque::new(), senders: 1 }
    }

    /// Appends a value behind everything already in flight.
    pub fn send(&mut self, t: T)
        ensures
            final(self).spec_queue() == old(self).spec_queue().push(t),
            final(self).spec_senders() == old(self).spec_senders(),
    {
        self.queue.push_back(t);
    }

    /// One receive step: the oldest value when there is one; disconnection
    /// when the queue is empty and no sender is left; otherwise the advice
    /// to wait, with nothing changed.
    pub fn try_recv(&mut self) -> (r: RecvDecision<T>)
        ensures
            old(self).spec_queue().len() > 0 ==> (r matches RecvDecision::Deliver(t) && t == old(
                self,
            ).spec_queue().first() && final(self).spec_queue() == old(
                self,
            ).spec_queue().drop_first()),
            old(self).spec_queue().len() == 0 && old(self).spec_senders() == 0 ==> (
            r is Disconnected && final(self).spec_queue() == old(self).spec_queue()),
            old(self).spec_queue().len() == 0 && old(self).spec_senders() > 0 ==> (r is Wait
                && final(self).spec_queue() == old(self).spec_queue()),
            final(self).spec_senders() == old(self).spec_senders(),
    {
        match self.queue.pop_front() {
            Some(t) => RecvDecision::Deliver(t),
            None => {
                if self.senders == 0 {
                    RecvDecision::Disconnected
                } else {
                    RecvDecision::Wait
                }
            },
        }
    }

    /// Records one more live sender.
    pub fn add_sender(&mut self)
        requires
            old(self).spec_senders() < usize::MAX,
        ensures
            final(self).spec_senders() == old(self).spec_senders() + 1,
            final(self).spec_queue() == old(self).spec_queue(),
    {
        self.senders = self.senders + 1;
    }

    /// Records that a sender is gone; true when it was the last one.
    pub fn drop_sender(&mut self) -> (r: bool)
        requires
            old(self).spec_senders() >= 1,
        ensures
            final(self).spec_senders() == old(self).spec_senders() - 1,
            final(self).spec_queue() == old(self).spec_queue(),
            r == (final(self).spec_senders() == 0),
    {
        self.senders = self.senders - 1;
        self.senders == 0
    }

    /// How many senders are alive.
    pub fn senders(&self) -> (r: usize)
        ensures
            r == self.spec_senders(),
    {
        self.senders
    }
}

} // verus!
