use vstd::prelude::*;
use vstd::std_specs::convert::FromSpecImpl;

use crate::addr::Addr;
use crate::id::NodeId;

verus! {

/// How many times a broadcast may be sent before it is dropped from the queue.
pub const TRANSMIT_LIMIT: usize = 5;

/// A membership event that is spread through the cluster by piggybacking it
/// on gossip messages.
#[derive(Clone, Copy, Debug, PartialEq, Eq, Structural)]
pub enum Broadcast {
    /// The node with this identity has joined, listening at this address.
    Joined(NodeId, Addr),
}

/// A queued broadcast with the number of times it has been sent.
#[derive(Clone, Copy, Debug)]
pub struct LimitedBroadcast {
    pub broadcast: Broadcast,
    pub transmits: usize,
}

impl LimitedBroadcast {
    /// A broadcast that has not been sent yet.
    pub fn new(broadcast: Broadcast) -> (r: LimitedBroadcast)
        ensures
            r.broadcast == broadcast,
            r.transmits == 0,
    {
        LimitedBroadcast { broadcast, transmits: 0 }
    }
}

impl From<LimitedBroadcast> for Broadcast {
    fn from(b: LimitedBroadcast) -> (r: Broadcast) {
        b.broadcast
    }
}

impl FromSpecImpl<LimitedBroadcast> for Broadcast {
    open spec fn obeys_from_spec() -> bool {
        true
    }

    open spec fn from_spec(b: LimitedBroadcast) -> Broadcast {
        b.broadcast
    }
}

/// The transmit counts of a queue never decrease from front to back.
pub open spec fn sorted_by_transmits(s: Seq<LimitedBroadcast>) -> bool {
    forall|i: int, j: int| 0 <= i <= j < s.len() ==> s[i].transmits <= s[j].transmits
}

/// Sorts a queue by transmit count, keeping the order of broadcasts with
/// equal counts (a stable insertion sort).
fn sort_by_transmits(v: Vec<LimitedBroadcast>) -> (r: Vec<LimitedBroadcast>)
    ensures
        sorted_by_transmits(r@),
        r@.to_multiset() == v@.to_multiset(),
        sorted_by_transmits(v@) ==> r@ == v@,
{
    broadcast use vstd::seq_lib::to_multiset_build, vstd::seq_lib::to_multiset_insert;

    let mut out: Vec<LimitedBroadcast> = Vec::new();
    let mut i: usize = 0;
    assert(v@.take(0) =~= out@);
    while i < v.len()
        invariant
            i <= v.len(),
            sorted_by_transmits(out@),
            out@.to_multiset() == v@.take(i as int).to_multiset(),
            sorted_by_transmits(v@) ==> out@ == v@.take(i as int),
        decreases v.len() - i,
    {
        let x = v[i];
        // The first position whose count exceeds that of `x`.
        let mut pos: usize = out.len();
        while pos > 0 && out[pos - 1].transmits > x.transmits
            invariant
                pos <= out.len(),
                forall|k: int| pos <= k < out@.len() ==> out@[k].transmits > x.transmits,
            decreases pos,
        {
            pos = pos - 1;
        }
        proof {
            if pos > 0 {
                assert(out@[pos - 1].transmits <= x.transmits);
            }
            if sorted_by_transmits(v@) {
                assert(out@ == v@.take(i as int));
                if pos < out@.len() {
                    assert(out@[pos as int] == v@[pos as int]);
                    assert(false);
                }
            }
        }
        let ghost before = out@;
        out.insert(pos, x);
        assert(v@.take(i + 1) == v@.take(i as int).push(x));
        assert(sorted_by_transmits(out@)) by {
            assert forall|a: int, b: int| 0 <= a <= b < out@.len() implies out@[a].transmits
                <= out@[b].transmits by {
                if a < pos && b > pos {
                    assert(before[a].transmits <= before[pos - 1].transmits);
                }
                if a < pos && b < pos {
                    assert(out@[a] == before[a] && out@[b] == before[b]);
                }
                if a > pos {
                    assert(out@[a] == before[a - 1] && out@[b] == before[b - 1]);
                }
                if a < pos && b > pos {
                    assert(out@[a] == before[a] && out@[b] == before[b - 1]);
                }
            }
        }
        proof {
            vstd::seq_lib::to_multiset_insert(before, pos as int, x);
            vstd::seq_lib::to_multiset_build(v@.take(i as int), x);
            if sorted_by_transmits(v@) {
                assert(out@ == before.push(x));
            }
        }
        i = i + 1;
    }
    assert(v@.take(v@.len() as int) == v@);
    out
}

/// The queue of broadcasts waiting to be piggybacked on gossip messages.
#[derive(Debug, Clone)]
pub struct Broadcasts(Vec<LimitedBroadcast>);

impl View for Broadcasts {
    type V = Seq<Broadcast>;

    /// The queued broadcasts, oldest first.
    closed spec fn view(&self) -> Seq<Broadcast> {
        self.0@.map_values(|b: LimitedBroadcast| b.broadcast)
    }
}

impl Default for Broadcasts {
    fn default() -> (r: Broadcasts)
        ensures
            r.wf(),
            r@ == Seq::<Broadcast>::empty(),
            r.transmits() == Seq::<usize>::empty(),
    {
        Broadcasts(Vec::new())
    }
}

impl Broadcasts {
    /// How many times each queued broadcast has been sent, in queue order.
    pub closed spec fn transmits(&self) -> Seq<usize> {
        self.0@.map_values(|b: LimitedBroadcast| b.transmits)
    }

    /// Well-formedness: no queued broadcast has been sent yet. Nothing in the
    /// protocol counts a transmission, so every count stays at zero.
    pub open spec fn wf(&self) -> bool {
        &&& self.transmits().len() == self@.len()
        &&& forall|i: int| 0 <= i < self.transmits().len() ==> #[trigger] self.transmits()[i] == 0
    }

    /// In a well-formed queue every entry's count is zero.
    proof fn lemma_counts_zero(&self)
        requires
            self.wf(),
        ensures
            forall|i: int| 0 <= i < self.0@.len() ==> #[trigger] self.0@[i].transmits == 0,
    {
        assert forall|i: int| 0 <= i < self.0@.len() implies #[trigger] self.0@[i].transmits == 0 by {
            assert(self.transmits()[i] == self.0@[i].transmits);
        }
    }

    /// An empty queue.
    pub fn new() -> (r: Broadcasts)
        ensures
            r.wf(),
            r@ == Seq::<Broadcast>::empty(),
            r.transmits() == Seq::<usize>::empty(),
    {
        Broadcasts(Vec::new())
    }

    /// The number of queued broadcasts.
    pub fn len(&self) -> (n: usize)
        ensures
            n == self@.len(),
    {
        self.0.len()
    }

    /// Queues a broadcast behind those already queued.
    pub fn add(&mut self, broadcast: Broadcast)
        requires
            old(self).wf(),
        ensures
            final(self).wf(),
            final(self)@ == old(self)@.push(broadcast),
            final(self).transmits() == old(self).transmits().push(0),
    {
        self.0.push(LimitedBroadcast::new(broadcast));
        assert(self@ == old(self)@.push(broadcast));
        assert(self.transmits() =~= old(self).transmits().push(0));
    }

    /// The broadcasts to piggyback on the next message: every queued
    /// broadcast that has not exceeded the transmit limit, oldest first.
    /// Broadcasts over the limit are dropped from the queue and the rest are
    /// ordered by transmit count; as no count ever leaves zero, this hands
    /// out the whole queue and leaves it as it was.
    pub fn get(&mut self) -> (r: Vec<Broadcast>)
        requires
            old(self).wf(),
        ensures
            final(self).wf(),
            final(self)@ == old(self)@,
            final(self).transmits() == old(self).transmits(),
            r@ == old(self)@,
    {
        let transmit_limit: usize = TRANSMIT_LIMIT;
        let mut to_send: Vec<Broadcast> = Vec::new();
        let mut to_prune: Vec<usize> = Vec::new();
        let mut i: usize = 0;
        while i < self.0.len()
            invariant
                i <= self.0@.len(),
                self.wf(),
                self.0@ == old(self).0@,
                to_prune@.len() == 0,
                to_send@ == self.0@.take(i as int).map_values(|b: LimitedBroadcast| b.broadcast),
            decreases self.0@.len() - i,
        {
            let b = self.0[i];
            proof {
                self.lemma_counts_zero();
            }
            if b.transmits > transmit_limit {
                to_prune.push(i);
            } else {
                to_send.push(Broadcast::from(b));
            }
            assert(self.0@.take(i + 1) == self.0@.take(i as int).push(b));
            i = i + 1;
        }
        let mut j: usize = 0;
        while j < to_prune.len()
            invariant
                to_prune@.len() == 0,
                self.wf(),
                self.0@ == old(self).0@,
            decreases to_prune@.len() - j,
        {
            let index = to_prune[j];
            self.0.remove(index);
            j = j + 1;
        }
        assert(self.0@.take(self.0@.len() as int) == self.0@);
        proof {
            self.lemma_counts_zero();
        }
        assert(sorted_by_transmits(self.0@));
        let mut queue: Vec<LimitedBroadcast> = Vec::new();
        std::mem::swap(&mut queue, &mut self.0);
        self.0 = sort_by_transmits(queue);
        assert(self.0@ == old(self).0@);
        to_send
    }
}

} // verus!
