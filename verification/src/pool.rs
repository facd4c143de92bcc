//! The producer-consumer protocol of the pool, with its delivery guarantee.
//!
//! One feeder pushes words into the bounded channel; N workers share the
//! consuming side and pull one word at a time.  This module models a whole
//! run of that protocol: every way the real run can interleave is a sequence
//! of `feed`, `close_input` and `pull` steps, with the worker index of each
//! `pull` chosen arbitrarily.  The protocol invariant ties the three places
//! a word can be - still buffered, or processed by exactly one worker - to
//! the words sent, and yields the delivery guarantee: no word is lost, none
//! is delivered twice, and once the input is closed and drained every
//! worker stops, after exactly one pull per word overall.

use crate::channel::BoundedChannel;
use vstd::prelude::*;
use vstd::multiset::Multiset;
use vstd::seq_lib::group_to_multiset_ensures;

verus! {

/// One worker's consuming half: its ordinal, the words it pulled, and
/// whether it observed end of stream and stopped.
pub struct PoolWorker {
    /// The worker's ordinal, for logging.
    pub id: usize,
    /// The words this worker pulled, in the order it pulled them.
    pub processed: Vec<String>,
    /// Whether the worker observed end of stream; a stopped worker pulls
    /// no further word.
    pub stopped: bool,
}

/// The words pulled across the given workers, as a multiset: delivery has
/// no order across workers, only a count per word.
pub open spec fn processed_of(ws: Seq<PoolWorker>) -> Multiset<Seq<char>>
    decreases ws.len(),
{
    if ws.len() == 0 {
        Multiset::empty()
    } else {
        ws.first().processed.deep_view().to_multiset().add(processed_of(ws.drop_first()))
    }
}

/// One run of the protocol: the channel, the workers sharing its consuming
/// side, and the history of the words fed in.
pub struct PoolRun {
    /// The bounded channel between the feeder and the workers.
    pub channel: BoundedChannel,
    /// The workers, indexed by their ordinal.
    pub workers: Vec<PoolWorker>,
    /// The words the feeder has sent, in order.
    pub sent: Ghost<Seq<Seq<char>>>,
}

impl PoolRun {
    /// The protocol invariant.  Every step keeps it; it places each sent
    /// word either in the channel's buffer or with exactly one worker.
    pub open spec fn inv(self) -> bool {
        &&& self.channel.wf()
        &&& forall|i: int|
            0 <= i < self.workers@.len() ==> (#[trigger] self.workers@[i]).id == i
        &&& self.channel.buffer.deep_view().to_multiset().add(processed_of(self.workers@))
            =~= self.sent@.to_multiset()
    }

    /// A fresh run: `threads` idle workers around an empty open channel of
    /// the given capacity, nothing sent yet.
    pub fn new(threads: usize, capacity: usize) -> (p: Self)
        requires
            threads >= 1,
            capacity >= 1,
        ensures
            p.inv(),
            p.workers@.len() == threads as nat,
            forall|i: int| 0 <= i < threads ==> !(#[trigger] p.workers@[i]).stopped,
            forall|i: int|
                0 <= i < threads ==> (#[trigger] p.workers@[i]).processed@.len() == 0,
            p.channel.capacity == capacity,
            !p.channel.closed,
            p.channel.buffer@.len() == 0,
            p.sent@.len() == 0,
    {
        let mut workers: Vec<PoolWorker> = Vec::new();
        let mut i: usize = 0;
        while i < threads
            invariant
                i <= threads,
                workers@.len() == i as nat,
                forall|j: int| 0 <= j < i ==> (#[trigger] workers@[j]).id == j,
                forall|j: int| 0 <= j < i ==> !(#[trigger] workers@[j]).stopped,
                forall|j: int| 0 <= j < i ==> (#[trigger] workers@[j]).processed@.len() == 0,
            decreases threads - i,
        {
            workers.push(PoolWorker { id: i, processed: Vec::new(), stopped: false });
            i = i + 1;
        }
        let p = PoolRun {
            channel: BoundedChannel::new(capacity),
            workers,
            sent: Ghost(Seq::empty()),
        };
        proof {
            broadcast use group_to_multiset_ensures;
            lemma_processed_of_all_empty(p.workers@);
            assert(p.channel.buffer.deep_view() =~= Seq::<Seq<char>>::empty());
            assert(p.channel.buffer.deep_view().to_multiset().add(processed_of(p.workers@))
                =~= p.sent@.to_multiset());
        }
        p
    }

    /// The feeder hands one word in.  A real feeder suspends until the
    /// channel has room; the precondition admits exactly that state.  The
    /// word joins the buffer and the sent history; no worker changes.
    pub fn feed(&mut self, word: String)
        requires
            old(self).inv(),
            old(self).channel.can_send(),
        ensures
            final(self).inv(),
            final(self).sent@ == old(self).sent@.push(word@),
            final(self).channel.buffer@ == old(self).channel.buffer@.push(word),
            final(self).channel.capacity == old(self).channel.capacity,
            !final(self).channel.closed,
            final(self).workers == old(self).workers,
    {
        let ghost prev_buf = self.channel.buffer.deep_view();
        let r = self.channel.send(word);
        proof {
            self.sent@ = self.sent@.push(word@);
            broadcast use group_to_multiset_ensures;
            assert(self.channel.buffer.deep_view() =~= prev_buf.push(word@));
            assert(self.channel.buffer.deep_view().to_multiset().add(processed_of(self.workers@))
                =~= self.sent@.to_multiset()) by {
                lemma_multiset_insert_add_commute(
                    prev_buf.to_multiset(),
                    processed_of(self.workers@),
                    word@,
                );
            }
        }
    }

    /// The feeder closes the input.  Buffered words still drain; nothing
    /// else changes.
    pub fn close_input(&mut self)
        requires
            old(self).inv(),
        ensures
            final(self).inv(),
            final(self).channel.closed,
            final(self).channel.buffer == old(self).channel.buffer,
            final(self).channel.capacity == old(self).channel.capacity,
            final(self).workers == old(self).workers,
            final(self).sent == old(self).sent,
    {
        self.channel.close_send_side();
    }

    /// Worker `i` takes its turn at the shared consumer.  With a word
    /// buffered, the worker pulls exactly that word, the oldest one, and
    /// the call returns true; with the channel closed and drained, the
    /// worker observes end of stream, stops, and nothing else changes.
    pub fn pull(&mut self, i: usize) -> (got: bool)
        requires
            old(self).inv(),
            i < old(self).workers@.len(),
            !old(self).workers@[i as int].stopped,
            old(self).channel.closed || old(self).channel.buffer@.len() > 0,
        ensures
            final(self).inv(),
            final(self).sent == old(self).sent,
            final(self).workers@.len() == old(self).workers@.len(),
            final(self).channel.capacity == old(self).channel.capacity,
            final(self).channel.closed == old(self).channel.closed,
            got == (old(self).channel.buffer@.len() > 0),
            got ==> {
                &&& final(self).channel.buffer@ == old(self).channel.buffer@.drop_first()
                &&& final(self).workers@[i as int].processed@
                    == old(self).workers@[i as int].processed@.push(
                    old(self).channel.buffer@[0],
                )
                &&& final(self).workers@[i as int].stopped
                    == old(self).workers@[i as int].stopped
            },
            !got ==> {
                &&& old(self).channel.end_of_stream()
                &&& final(self).channel == old(self).channel
                &&& final(self).workers@[i as int].processed
                    == old(self).workers@[i as int].processed
                &&& final(self).workers@[i as int].stopped
            },
            forall|j: int|
                0 <= j < old(self).workers@.len() && j != i ==> final(self).workers@[j]
                    == old(self).workers@[j],
    {
        let ghost prev = *self;
        match self.channel.try_receive() {
            Some(word) => {
                let ghost w = word@;
                let worker = &mut self.workers[i];
                worker.processed.push(word);
                proof {
                    broadcast use group_to_multiset_ensures;
                    let ws = prev.workers@;
                    let w2 = self.workers@[i as int];
                    assert(self.workers@ =~= ws.update(i as int, w2));
                    assert(w2.processed.deep_view() =~= ws[i as int].processed.deep_view().push(w));
                    lemma_processed_of_update(ws, i as int, w2, w);
                    assert(prev.channel.buffer.deep_view().remove(0)
                        =~= self.channel.buffer.deep_view());
                    assert(prev.channel.buffer.deep_view()[0] == w);
                    lemma_multiset_add_insert_shift(
                        self.channel.buffer.deep_view().to_multiset(),
                        processed_of(ws),
                        w,
                    );
                    assert(self.channel.buffer.deep_view().to_multiset().add(
                        processed_of(self.workers@),
                    ) =~= self.sent@.to_multiset());
                }
                true
            },
            None => {
                let worker = &mut self.workers[i];
                worker.stopped = true;
                proof {
                    let ws = prev.workers@;
                    let w2 = self.workers@[i as int];
                    assert(self.workers@ =~= ws.update(i as int, w2));
                    lemma_processed_of_update_same(ws, i as int, w2);
                    assert(self.channel.buffer.deep_view().to_multiset().add(
                        processed_of(self.workers@),
                    ) =~= self.sent@.to_multiset());
                }
                false
            },
        }
    }
}

/// Drives one whole round of the protocol, sequentially: every word is fed
/// in order and taken by the worker `schedule` names for it, the input is
/// closed, and every worker then observes end of stream and stops.  The
/// schedule stands for the scheduler: whichever way the real interleaving
/// picks the pulling workers, the round ends with every worker stopped and
/// the words delivered across the pool exactly once each.
pub fn run_round(words: &Vec<String>, threads: usize, schedule: &Vec<usize>) -> (p: PoolRun)
    requires
        threads >= 1,
        schedule@.len() == words@.len(),
        forall|i: int| 0 <= i < schedule@.len() ==> (#[trigger] schedule@[i]) < threads,
    ensures
        p.inv(),
        p.channel.end_of_stream(),
        p.workers@.len() == threads as nat,
        p.sent@ == words.deep_view(),
        forall|i: int| 0 <= i < threads ==> (#[trigger] p.workers@[i]).stopped,
        processed_of(p.workers@) =~= words.deep_view().to_multiset(),
{
    let mut p = PoolRun::new(threads, 1);
    let mut i: usize = 0;
    while i < words.len()
        invariant
            threads >= 1,
            i <= words@.len(),
            schedule@.len() == words@.len(),
            forall|j: int| 0 <= j < schedule@.len() ==> (#[trigger] schedule@[j]) < threads,
            p.inv(),
            p.workers@.len() == threads as nat,
            !p.channel.closed,
            p.channel.capacity == 1,
            p.channel.buffer@.len() == 0,
            p.sent@ =~= words.deep_view().take(i as int),
            forall|j: int| 0 <= j < threads ==> !(#[trigger] p.workers@[j]).stopped,
        decreases words@.len() - i,
    {
        let ghost pre_sent = p.sent@;
        p.feed(words[i].clone());
        p.pull(schedule[i]);
        proof {
            assert(words.deep_view()[i as int] == words@[i as int]@);
            assert(words.deep_view().take(i + 1) =~= words.deep_view().take(i as int).push(
                words.deep_view()[i as int],
            ));
            assert(p.sent@ =~= pre_sent.push(words@[i as int]@));
        }
        i = i + 1;
    }
    p.close_input();
    proof {
        assert(words.deep_view().take(words@.len() as int) =~= words.deep_view());
    }
    let mut w: usize = 0;
    while w < threads
        invariant
            w <= threads,
            p.inv(),
            p.workers@.len() == threads as nat,
            p.channel.end_of_stream(),
            p.sent@ == words.deep_view(),
            forall|j: int| 0 <= j < w ==> (#[trigger] p.workers@[j]).stopped,
            forall|j: int| w <= j < threads ==> !(#[trigger] p.workers@[j]).stopped,
        decreases threads - w,
    {
        p.pull(w);
        w = w + 1;
    }
    proof {
        lemma_exactly_once_delivery(p);
    }
    p
}

/// A run with no worker holding a word yet contributes nothing to the
/// processed multiset.
proof fn lemma_processed_of_all_empty(ws: Seq<PoolWorker>)
    requires
        forall|i: int| 0 <= i < ws.len() ==> (#[trigger] ws[i]).processed@.len() == 0,
    ensures
        processed_of(ws) =~= Multiset::empty(),
    decreases ws.len(),
{
    broadcast use group_to_multiset_ensures;
    if ws.len() > 0 {
        assert(ws.first().processed.deep_view() =~= Seq::<Seq<char>>::empty());
        lemma_processed_of_all_empty(ws.drop_first());
    }
}

/// Replacing worker `i` by one that pulled one more word `x` grows the
/// processed multiset by exactly that word.
proof fn lemma_processed_of_update(ws: Seq<PoolWorker>, i: int, w2: PoolWorker, x: Seq<char>)
    requires
        0 <= i < ws.len(),
        w2.processed.deep_view() =~= ws[i].processed.deep_view().push(x),
    ensures
        processed_of(ws.update(i, w2)) =~= processed_of(ws).insert(x),
    decreases ws.len(),
{
    broadcast use group_to_multiset_ensures;
    if i == 0 {
        assert(ws.update(0, w2).first() == w2);
        assert(ws.update(0, w2).drop_first() =~= ws.drop_first());
        assert(w2.processed.deep_view().to_multiset()
            =~= ws[0].processed.deep_view().to_multiset().insert(x));
        lemma_multiset_insert_add_commute(
            ws[0].processed.deep_view().to_multiset(),
            processed_of(ws.drop_first()),
            x,
        );
    } else {
        assert(ws.update(i, w2).first() == ws.first());
        assert(ws.update(i, w2).drop_first() =~= ws.drop_first().update(i - 1, w2));
        lemma_processed_of_update(ws.drop_first(), i - 1, w2, x);
        assert(processed_of(ws.drop_first().update(i - 1, w2))
            =~= processed_of(ws.drop_first()).insert(x));
        lemma_multiset_insert_add_commute2(
            ws.first().processed.deep_view().to_multiset(),
            processed_of(ws.drop_first()),
            x,
        );
    }
}

/// Replacing worker `i` by one with the same pulled words leaves the
/// processed multiset unchanged.
proof fn lemma_processed_of_update_same(ws: Seq<PoolWorker>, i: int, w2: PoolWorker)
    requires
        0 <= i < ws.len(),
        w2.processed == ws[i].processed,
    ensures
        processed_of(ws.update(i, w2)) =~= processed_of(ws),
    decreases ws.len(),
{
    if i == 0 {
        assert(ws.update(0, w2).first() == w2);
        assert(ws.update(0, w2).drop_first() =~= ws.drop_first());
    } else {
        assert(ws.update(i, w2).first() == ws.first());
        assert(ws.update(i, w2).drop_first() =~= ws.drop_first().update(i - 1, w2));
        lemma_processed_of_update_same(ws.drop_first(), i - 1, w2);
    }
}

/// `a.insert(x).add(b) == a.add(b).insert(x)`: where the one extra word is
/// counted does not matter.
proof fn lemma_multiset_insert_add_commute(a: Multiset<Seq<char>>, b: Multiset<Seq<char>>, x: Seq<char>)
    ensures
        a.insert(x).add(b) =~= a.add(b).insert(x),
{
}

/// `a.add(b.insert(x)) == a.add(b).insert(x)`: the same, on the other side.
proof fn lemma_multiset_insert_add_commute2(a: Multiset<Seq<char>>, b: Multiset<Seq<char>>, x: Seq<char>)
    ensures
        a.add(b.insert(x)) =~= a.add(b).insert(x),
{
}

/// `a.add(b.insert(x)) == a.insert(x).add(b)` rearranged for the pull step:
/// moving the word from the buffer's count to a worker's count keeps the sum.
proof fn lemma_multiset_add_insert_shift(a: Multiset<Seq<char>>, b: Multiset<Seq<char>>, x: Seq<char>)
    ensures
        a.insert(x).add(b) =~= a.add(b.insert(x)),
{
}

/// Exactly-once delivery: whenever the channel's buffer is drained, the
/// words pulled across all workers are, as a multiset, exactly the words
/// sent - none lost, none delivered twice.  While words are still buffered,
/// the sent words are exactly the buffered ones plus the delivered ones.
pub proof fn lemma_exactly_once_delivery(p: PoolRun)
    requires
        p.inv(),
        p.channel.buffer@.len() == 0,
    ensures
        processed_of(p.workers@) =~= p.sent@.to_multiset(),
        processed_of(p.workers@).len() == p.sent@.len(),
{
    broadcast use group_to_multiset_ensures;
    assert(p.channel.buffer.deep_view() =~= Seq::<Seq<char>>::empty());
    assert(p.channel.buffer.deep_view().to_multiset() =~= Multiset::empty());
    assert(processed_of(p.workers@)
        =~= p.channel.buffer.deep_view().to_multiset().add(processed_of(p.workers@)));
}

/// Pool drain on exhaustion: once the input is closed and the buffer is
/// drained, the pulls already made account one-for-one for every word sent,
/// and (by the contract of `pull`) each remaining worker's next turn only
/// stops it - there is no further channel activity.
pub proof fn lemma_pool_drain(p: PoolRun)
    requires
        p.inv(),
        p.channel.end_of_stream(),
    ensures
        processed_of(p.workers@) =~= p.sent@.to_multiset(),
        processed_of(p.workers@).len() == p.sent@.len(),
{
    lemma_exactly_once_delivery(p);
}

} // verus!
