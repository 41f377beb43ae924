use vstd::prelude::*;

use std::collections::HashMap;
use std::time::{Duration, Instant};

use crate::acks::{seq_after, SeqNum};
use crate::addr::Addr;
use crate::clock::{duration_nanos, instant_now, nanos_since, span_nanos};

verus! {

broadcast use vstd::std_specs::hash::group_hash_axioms;

/// A probe that has been sent and not yet acknowledged: when it was sent
/// (nanoseconds on the detector's clock) and to whom.
pub type Probe = (u128, Addr);

/// A probe sent at `sent` has timed out at `now` when more than `timeout`
/// nanoseconds lie between the two. A `now` before `sent` counts as no time
/// passed.
pub open spec fn timed_out(sent: u128, now: u128, timeout: u128) -> bool {
    now - sent > timeout
}

/// The sequence numbers of the probes in `pending` that have timed out at `now`.
pub open spec fn expired_seqs(pending: Map<SeqNum, Probe>, now: u128, timeout: u128) -> Set<SeqNum> {
    pending.dom().filter(|s: SeqNum| timed_out(pending[s].0, now, timeout))
}

/// The targets of the probes in `pending` that have timed out at `now`.
pub open spec fn expired_targets(pending: Map<SeqNum, Probe>, now: u128, timeout: u128) -> Set<Addr> {
    expired_seqs(pending, now, timeout).map(|s: SeqNum| pending[s].1)
}

/// Whether `a` is among `v`.
fn contains_addr(v: &Vec<Addr>, a: Addr) -> (b: bool)
    ensures
        b == v@.contains(a),
{
    let mut i: usize = 0;
    while i < v.len()
        invariant
            i <= v@.len(),
            forall|j: int| 0 <= j < i ==> v@[j] != a,
        decreases v@.len() - i,
    {
        if v[i] == a {
            return true;
        }
        i = i + 1;
    }
    false
}

/// A failure detector: the probes sent and awaiting acknowledgement, with the
/// time at which each was sent. A probe that waits longer than the timeout
/// marks its target as suspected of failure. Times are nanoseconds on the
/// detector's clock; the detector keeps the latest time it has seen, which
/// never goes back.
#[derive(Debug)]
pub struct Failure {
    timeout: u128,
    seq_num: SeqNum,
    acks: HashMap<SeqNum, Probe>,
    epoch: Instant,
    latest: u128,
}

impl Failure {
    /// The timeout, in nanoseconds.
    pub closed spec fn spec_timeout(&self) -> u128 {
        self.timeout
    }

    /// The last sequence number handed out (zero before the first probe).
    pub closed spec fn spec_seq_num(&self) -> SeqNum {
        self.seq_num
    }

    /// The unacknowledged probes by sequence number.
    pub closed spec fn pending(&self) -> Map<SeqNum, Probe> {
        self.acks@
    }

    /// The latest time the detector has seen.
    pub closed spec fn spec_latest(&self) -> u128 {
        self.latest
    }

    /// Well-formedness: no probe was sent after the latest time seen.
    pub open spec fn wf(&self) -> bool {
        forall|s: SeqNum| #[trigger] self.pending().contains_key(s) ==> self.pending()[s].0 <= self.spec_latest()
    }

    /// A detector with the given timeout. The timeout is read from `timeout`
    /// in nanoseconds.
    pub fn new(timeout: Duration) -> (f: Failure)
        ensures
            f.wf(),
            f.spec_timeout() == span_nanos(timeout),
            f.spec_seq_num() == 0,
            f.pending() == Map::<SeqNum, Probe>::empty(),
            f.spec_latest() == 0,
    {
        Failure::with_timeout_nanos(duration_nanos(&timeout))
    }

    /// A detector whose timeout is `timeout` nanoseconds.
    pub fn with_timeout_nanos(timeout: u128) -> (f: Failure)
        ensures
            f.wf(),
            f.spec_timeout() == timeout,
            f.spec_seq_num() == 0,
            f.pending() == Map::<SeqNum, Probe>::empty(),
            f.spec_latest() == 0,
    {
        Failure { timeout, seq_num: 0, acks: HashMap::new(), epoch: instant_now(), latest: 0 }
    }

    /// Reads the detector's clock: the nanoseconds since the detector was
    /// made, never less than the latest time seen, which it becomes.
    fn now(&mut self) -> (t: u128)
        requires
            old(self).wf(),
        ensures
            final(self).wf(),
            t >= old(self).spec_latest(),
            final(self).spec_latest() == t,
            final(self).spec_timeout() == old(self).spec_timeout(),
            final(self).spec_seq_num() == old(self).spec_seq_num(),
            final(self).pending() == old(self).pending(),
    {
        let reading = nanos_since(&self.epoch);
        let t = if reading < self.latest {
            self.latest
        } else {
            reading
        };
        self.latest = t;
        proof {
            lemma_wf_frame(*old(self), *self);
        }
        t
    }

    /// Records a probe sent now to `target`, under the next sequence number.
    /// The send time is the clock's reading, which becomes the latest time
    /// seen.
    pub fn add(&mut self, target: Addr) -> (seq: SeqNum)
        requires
            old(self).wf(),
        ensures
            final(self).wf(),
            seq == seq_after(old(self).spec_seq_num()),
            final(self).spec_seq_num() == seq,
            final(self).spec_timeout() == old(self).spec_timeout(),
            final(self).spec_latest() >= old(self).spec_latest(),
            final(self).pending() == old(self).pending().insert(
                seq,
                (final(self).spec_latest(), target),
            ),
            final(self).pending().dom().finite(),
    {
        let now = self.now();
        self.add_at(target, now)
    }

    /// Records a probe sent at time `now` to `target`, under the next
    /// sequence number; the latest time seen becomes `now` if it is later.
    pub fn add_at(&mut self, target: Addr, now: u128) -> (seq: SeqNum)
        requires
            old(self).wf(),
        ensures
            final(self).wf(),
            seq == seq_after(old(self).spec_seq_num()),
            final(self).spec_seq_num() == seq,
            final(self).spec_timeout() == old(self).spec_timeout(),
            final(self).spec_latest() == if now > old(self).spec_latest() {
                now
            } else {
                old(self).spec_latest()
            },
            final(self).pending() == old(self).pending().insert(seq, (now, target)),
            final(self).pending().dom().finite(),
    {
        if now > self.latest {
            self.latest = now;
        }
        proof {
            lemma_wf_frame(*old(self), *self);
        }
        let next_seq = self.next_seq();
        self.acks.insert(next_seq, (now, target));
        assert forall|s: SeqNum| #[trigger] self.pending().contains_key(s) implies self.pending()[s].0
            <= self.spec_latest() by {
            if s != next_seq {
                assert(old(self).pending().contains_key(s));
            }
        }
        next_seq
    }

    /// Forgets the probe with sequence number `seq`, which has been answered.
    pub fn handle_ack(&mut self, seq: SeqNum)
        requires
            old(self).wf(),
        ensures
            final(self).wf(),
            final(self).spec_seq_num() == old(self).spec_seq_num(),
            final(self).spec_timeout() == old(self).spec_timeout(),
            final(self).spec_latest() == old(self).spec_latest(),
            final(self).pending() == old(self).pending().remove(seq),
            final(self).pending().dom().finite(),
    {
        self.acks.remove(&seq);
        proof {
            lemma_wf_frame(*old(self), *self);
        }
    }

    /// Gathers the set of nodes suspected of failure: the targets of the
    /// probes that have timed out by the clock's reading now, which becomes
    /// the latest time seen and is no earlier than any send time. Their
    /// probes are forgotten.
    pub fn gather(&mut self) -> (suspects: Vec<Addr>)
        requires
            old(self).wf(),
        ensures
            final(self).wf(),
            final(self).spec_seq_num() == old(self).spec_seq_num(),
            final(self).spec_timeout() == old(self).spec_timeout(),
            final(self).spec_latest() >= old(self).spec_latest(),
            forall|s: SeqNum| #[trigger] old(self).pending().contains_key(s)
                ==> old(self).pending()[s].0 <= final(self).spec_latest(),
            gathered_at(*old(self), *final(self), suspects@, final(self).spec_latest()),
            final(self).pending().dom().finite(),
    {
        let now = self.now();
        self.gather_at(now)
    }

    /// Gathers the targets of the probes that have timed out at time `now`,
    /// each once, in no particular order, and forgets those probes; the
    /// others stay.
    pub fn gather_at(&mut self, now: u128) -> (suspects: Vec<Addr>)
        requires
            old(self).wf(),
        ensures
            final(self).wf(),
            final(self).spec_seq_num() == old(self).spec_seq_num(),
            final(self).spec_timeout() == old(self).spec_timeout(),
            final(self).spec_latest() == old(self).spec_latest(),
            gathered_at(*old(self), *final(self), suspects@, now),
            final(self).pending().dom().finite(),
    {
        let ghost m0 = self.acks@;
        let timeout = self.timeout;
        let mut keys: Vec<SeqNum> = Vec::new();
        for k in it: self.acks.keys()
            invariant
                it.seq().unref().to_set() == m0.dom(),
                it.seq().unref().no_duplicates(),
                keys@ == it.seq().unref().take(it.index() as int),
                it.index() == it.seq().len() ==> keys@ =~= it.seq().unref(),
        {
            keys.push(*k);
        }
        assert(keys@.to_set() == m0.dom());
        assert(keys@.no_duplicates());
        let ghost expired = expired_seqs(m0, now, timeout);
        let ghost target_of = |s: SeqNum| m0[s].1;
        let mut suspects: Vec<Addr> = Vec::new();
        let mut i: usize = 0;
        assert(expired.intersect(keys@.take(0).to_set()) =~= Set::<SeqNum>::empty());
        assert(Set::<SeqNum>::empty().map(target_of) =~= Set::<Addr>::empty());
        assert(suspects@.to_set() =~= Set::<Addr>::empty());
        while i < keys.len()
            invariant
                keys@.to_set() == m0.dom(),
                keys@.no_duplicates(),
                i <= keys@.len(),
                self.timeout == timeout,
                self.seq_num == old(self).seq_num,
                self.latest == old(self).latest,
                m0 == old(self).acks@,
                old(self).wf(),
                expired == expired_seqs(m0, now, timeout),
                target_of == (|s: SeqNum| m0[s].1),
                self.acks@ == m0.remove_keys(expired.intersect(keys@.take(i as int).to_set())),
                suspects@.no_duplicates(),
                suspects@.to_set() == expired.intersect(keys@.take(i as int).to_set()).map(target_of),
            decreases keys@.len() - i,
        {
            let k = keys[i];
            let ghost done = expired.intersect(keys@.take(i as int).to_set());
            assert(keys@.take(i + 1) == keys@.take(i as int).push(k));
            assert(m0.contains_key(k)) by {
                assert(keys@.contains(k));
            }
            assert(!keys@.take(i as int).contains(k)) by {
                if keys@.take(i as int).contains(k) {
                    let j = choose|j: int| 0 <= j < i && keys@.take(i as int)[j] == k;
                    assert(keys@[j] == keys@[i as int]);
                }
            }
            let probe: Probe = match self.acks.get(&k) {
                Some(p) => *p,
                None => {
                    assert(false);
                    (0, Addr::V4 { ipv4: 0, port: 0 })
                },
            };
            assert(probe == m0[k]);
            assert(expired.contains(k) <==> (now > probe.0 && now - probe.0 > timeout));
            proof {
                keys@.take(i as int).lemma_push_to_set_commute(k);
                done.lemma_set_map_insert_commute(k, target_of);
            }
            if now > probe.0 && now - probe.0 > timeout {
                if !contains_addr(&suspects, probe.1) {
                    let ghost before_push = suspects@;
                    proof {
                        suspects@.lemma_push_to_set_commute(probe.1);
                    }
                    suspects.push(probe.1);
                    assert(suspects@.no_duplicates()) by {
                        let n = suspects@.len() - 1;
                        assert forall|a: int, b: int| 0 <= a < b < suspects@.len() implies suspects@[a]
                            != suspects@[b] by {
                            if b == n {
                                assert(suspects@[a] == before_push[a]);
                                assert(before_push.contains(before_push[a]));
                            } else {
                                assert(suspects@[a] == before_push[a]);
                                assert(suspects@[b] == before_push[b]);
                            }
                        }
                    }
                }
                self.acks.remove(&k);
                assert(target_of(k) == probe.1);
                assert(suspects@.to_set() =~= done.insert(k).map(target_of));
            }
            proof {
                assert(self.acks@ =~= m0.remove_keys(expired.intersect(keys@.take(i + 1).to_set())));
                if expired.contains(k) {
                    assert(expired.intersect(keys@.take(i + 1).to_set()) =~= done.insert(k));
                } else {
                    assert(expired.intersect(keys@.take(i + 1).to_set()) =~= done);
                }
            }
            i = i + 1;
        }
        assert(keys@.take(keys@.len() as int) == keys@);
        assert(expired.intersect(keys@.to_set()) =~= expired);
        proof {
            lemma_wf_frame(*old(self), *self);
        }
        suspects
    }

    /// Advances the sequence number, wrapping around at the top, and returns
    /// the new one.
    pub fn next_seq(&mut self) -> (seq: SeqNum)
        requires
            old(self).wf(),
        ensures
            final(self).wf(),
            seq == seq_after(old(self).spec_seq_num()),
            final(self).spec_seq_num() == seq,
            final(self).spec_timeout() == old(self).spec_timeout(),
            final(self).spec_latest() == old(self).spec_latest(),
            final(self).pending() == old(self).pending(),
    {
        let new_seq_num = self.seq_num.wrapping_add(1);
        self.seq_num = new_seq_num;
        proof {
            lemma_wf_frame(*old(self), *self);
        }
        new_seq_num
    }

    /// The number of unacknowledged probes.
    pub fn len(&self) -> (n: usize)
        ensures
            n == self.pending().len(),
            self.pending().dom().finite(),
    {
        self.acks.len()
    }
}

/// Keeping only probes that were already there, as they were, and not
/// moving the latest time back keeps a detector well-formed.
proof fn lemma_wf_frame(a: Failure, b: Failure)
    requires
        a.wf(),
        forall|s: SeqNum| #[trigger] b.pending().contains_key(s) ==> a.pending().contains_key(s)
            && b.pending()[s] == a.pending()[s],
        b.spec_latest() >= a.spec_latest(),
    ensures
        b.wf(),
{
    assert forall|s: SeqNum| #[trigger] b.pending().contains_key(s) implies b.pending()[s].0
        <= b.spec_latest() by {
        assert(a.pending().contains_key(s));
    }
}

/// A detector holds finitely many probes.
pub proof fn lemma_pending_finite(f: Failure)
    ensures
        f.pending().dom().finite(),
{
}

/// `after` is `before` with the probes that time out at `now` forgotten, and
/// `suspects` is the set of their targets: each target once, in some order.
pub open spec fn gathered_at(before: Failure, after: Failure, suspects: Seq<Addr>, now: u128) -> bool {
    &&& after.pending() == before.pending().remove_keys(
        expired_seqs(before.pending(), now, before.spec_timeout()),
    )
    &&& suspects.no_duplicates()
    &&& suspects.to_set() == expired_targets(before.pending(), now, before.spec_timeout())
}

/// Gathering leaves no probe that has timed out at that time, and there are
/// no more suspects than forgotten probes.
pub proof fn law_gather_accounts_for_all(before: Failure, after: Failure, suspects: Seq<Addr>, now: u128)
    requires
        gathered_at(before, after, suspects, now),
        after.spec_timeout() == before.spec_timeout(),
    ensures
        forall|s: SeqNum|
            #[trigger] after.pending().contains_key(s) ==> !timed_out(
                after.pending()[s].0,
                now,
                after.spec_timeout(),
            ),
        suspects.len() + after.pending().len() <= before.pending().len(),
{
    let expired = expired_seqs(before.pending(), now, before.spec_timeout());
    let target_of = |s: SeqNum| before.pending()[s].1;
    assert(before.pending().dom().finite());
    assert(expired.finite()) by {
        vstd::set_lib::lemma_len_subset(expired, before.pending().dom());
    }
    suspects.unique_seq_to_set();
    vstd::set_lib::lemma_map_size_bound(expired, suspects.to_set(), target_of);
    before.pending().lemma_remove_keys_len(expired);
}

/// Gathering twice at the same time finds nothing the second time and
/// changes nothing.
pub proof fn law_gather_twice(
    first: Failure,
    second: Failure,
    third: Failure,
    suspects: Seq<Addr>,
    again: Seq<Addr>,
    now: u128,
)
    requires
        gathered_at(first, second, suspects, now),
        gathered_at(second, third, again, now),
        second.spec_timeout() == first.spec_timeout(),
    ensures
        again.len() == 0,
        third.pending() == second.pending(),
{
    law_gather_accounts_for_all(first, second, suspects, now);
    let expired = expired_seqs(second.pending(), now, second.spec_timeout());
    assert(expired =~= Set::<SeqNum>::empty());
    assert(expired_targets(second.pending(), now, second.spec_timeout()) =~= Set::<Addr>::empty());
    if again.len() > 0 {
        assert(again.to_set().contains(again[0]));
    }
    assert(third.pending() =~= second.pending());
}

} // verus!
