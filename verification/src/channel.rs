//! The bounded work-item channel.
//!
//! A single logical queue with a fixed capacity sits between the feeder and
//! the worker pool.  The feeder owns the sending side; the receiving side is
//! shared by every worker, one `try_receive` at a time (exclusive access is
//! what `&mut` stands for here).  Once the sending side is closed the queue
//! drains and then reports end of stream to every consumer.
//!
//! The asynchronous channel of the runtime suspends a sender while the
//! buffer is full and a receiver while the buffer is empty and open; in this
//! sequential model those two states are the preconditions of [`BoundedChannel::send`]
//! and [`BoundedChannel::try_receive`]: the operations exist exactly when the
//! real call would return.

use vstd::prelude::*;

verus! {

/// The error of a send on a channel whose sending side is closed.
pub struct Closed;

/// A single-producer, shared-consumer queue with a fixed capacity.
pub struct BoundedChannel {
    /// The buffered items, oldest first.
    pub buffer: Vec<String>,
    /// The fixed capacity; the buffer never holds more items than this.
    pub capacity: usize,
    /// Whether the sending side has been closed.
    pub closed: bool,
}

impl BoundedChannel {
    /// The channel's invariant: a positive capacity that the buffer respects.
    pub open spec fn wf(self) -> bool {
        1 <= self.capacity && self.buffer@.len() <= self.capacity
    }

    /// A send would find room right away: open, with buffer space left.
    pub open spec fn can_send(self) -> bool {
        !self.closed && self.buffer@.len() < self.capacity
    }

    /// Closed and fully drained: every receive from now on reports
    /// end of stream.
    pub open spec fn end_of_stream(self) -> bool {
        self.closed && self.buffer@.len() == 0
    }

    /// Opens a channel with the given capacity, empty and accepting items.
    pub fn new(capacity: usize) -> (c: Self)
        requires
            capacity >= 1,
        ensures
            c.wf(),
            c.capacity == capacity,
            !c.closed,
            c.buffer@.len() == 0,
    {
        BoundedChannel { buffer: Vec::new(), capacity, closed: false }
    }

    /// Hands one item to the channel.  A real sender suspends until the
    /// buffer has room or the channel is closed; the precondition admits
    /// exactly those two outcomes.  The item is queued if and only if the
    /// sending side is still open.
    pub fn send(&mut self, item: String) -> (r: Result<(), Closed>)
        requires
            old(self).wf(),
            old(self).can_send() || old(self).closed,
        ensures
            final(self).wf(),
            final(self).capacity == old(self).capacity,
            final(self).closed == old(self).closed,
            r is Ok <==> !old(self).closed,
            old(self).closed ==> *final(self) == *old(self),
            !old(self).closed ==> final(self).buffer@ == old(self).buffer@.push(item),
    {
        if self.closed {
            Err(Closed)
        } else {
            self.buffer.push(item);
            Ok(())
        }
    }

    /// Takes the next item, or reports end of stream once the sender has
    /// closed the channel and the buffer is drained.  A real receiver
    /// suspends on an empty open channel; the precondition admits exactly
    /// the states in which the call returns.  Each buffered item is handed
    /// out exactly once: it leaves the buffer with the call that returns it.
    pub fn try_receive(&mut self) -> (r: Option<String>)
        requires
            old(self).wf(),
            old(self).closed || old(self).buffer@.len() > 0,
        ensures
            final(self).wf(),
            final(self).capacity == old(self).capacity,
            final(self).closed == old(self).closed,
            old(self).buffer@.len() > 0 ==> {
                &&& r == Some(old(self).buffer@[0])
                &&& final(self).buffer@ == old(self).buffer@.drop_first()
            },
            old(self).buffer@.len() == 0 ==> {
                &&& r is None
                &&& *final(self) == *old(self)
                &&& old(self).end_of_stream()
            },
    {
        if self.buffer.len() > 0 {
            let item = self.buffer.remove(0);
            proof {
                assert(old(self).buffer@.remove(0) =~= old(self).buffer@.drop_first());
            }
            Some(item)
        } else {
            None
        }
    }

    /// Closes the sending side.  Buffered items stay and will still be
    /// drained; calling this twice changes nothing further.
    pub fn close_send_side(&mut self)
        requires
            old(self).wf(),
        ensures
            final(self).wf(),
            final(self).closed,
            final(self).buffer == old(self).buffer,
            final(self).capacity == old(self).capacity,
    {
        self.closed = true;
    }
}

/// The backpressure bound: on a capacity-one channel that already buffers
/// an item, no send can go through until a worker has taken the item; the
/// feeder has to wait (or give up when its timeout fires).
pub proof fn lemma_backpressure_bound(c: BoundedChannel)
    requires
        c.wf(),
        c.capacity == 1,
        c.buffer@.len() == 1,
    ensures
        !c.can_send(),
{
}

} // verus!
