use vstd::prelude::*;

use std::collections::HashMap;
use std::time::{Duration, Instant};

use crate::addr::Addr;
use crate::clock::{duration_nanos, instant_now, nanos_since, span_nanos};

verus! {

broadcast use vstd::std_specs::hash::group_hash_axioms;

/// The number that ties an acknowledgement to the probe it answers.
pub type SeqNum = u32;

/// The sequence number that follows `seq`, wrapping around at the top.
pub open spec fn seq_after(seq: SeqNum) -> SeqNum {
    if seq == SeqNum::MAX {
        0
    } else {
        (seq + 1) as SeqNum
    }
}

/// What waits for the acknowledgement of one probe: where the probe went,
/// when it was sent (nanoseconds on the owner's clock), and the signal to
/// fire when the acknowledgement arrives.
#[derive(Debug)]
pub struct AckHandler<H> {
    sent_at: u128,
    addr: Addr,
    signal: H,
}

impl<H> AckHandler<H> {
    pub closed spec fn spec_sent_at(&self) -> u128 {
        self.sent_at
    }

    pub closed spec fn spec_addr(&self) -> Addr {
        self.addr
    }

    pub closed spec fn spec_signal(&self) -> H {
        self.signal
    }

    /// A handler for a probe sent to `target` at `sent_at`, that fires
    /// `signal` on acknowledgement.
    pub fn new(target: Addr, signal: H, sent_at: u128) -> (h: AckHandler<H>)
        ensures
            h.spec_addr() == target,
            h.spec_signal() == signal,
            h.spec_sent_at() == sent_at,
    {
        AckHandler { addr: target, sent_at, signal }
    }

    /// Where the probe went.
    pub fn addr(&self) -> (a: Addr)
        ensures
            a == self.spec_addr(),
    {
        self.addr
    }

    /// When the probe was sent.
    pub fn sent_at(&self) -> (t: u128)
        ensures
            t == self.spec_sent_at(),
    {
        self.sent_at
    }

    /// Gives up the signal, to be fired by the caller.
    pub fn into_signal(self) -> (s: H)
        ensures
            s == self.spec_signal(),
    {
        self.signal
    }
}

/// `after` is `before` with one more probe waiting under `seq`: the handler
/// there is for `target` and fires `signal`, and every other waiting handler
/// is as it was.
pub open spec fn probe_recorded<H>(
    before: Map<SeqNum, AckHandler<H>>,
    after: Map<SeqNum, AckHandler<H>>,
    seq: SeqNum,
    target: Addr,
    signal: H,
) -> bool {
    &&& after.dom() == before.dom().insert(seq)
    &&& after[seq].spec_addr() == target
    &&& after[seq].spec_signal() == signal
    &&& forall|s: SeqNum| s != seq && #[trigger] before.contains_key(s) ==> after[s] == before[s]
}

/// An acknowledgement finds the probe it answers: once a probe is recorded
/// under `seq`, the handler waiting there is the one for its target and its
/// signal, and taking it out leaves exactly the handlers that waited before,
/// apart from any that had waited under the same number.
pub proof fn law_ack_finds_probe<H>(
    before: Map<SeqNum, AckHandler<H>>,
    after: Map<SeqNum, AckHandler<H>>,
    seq: SeqNum,
    target: Addr,
    signal: H,
)
    requires
        probe_recorded(before, after, seq, target, signal),
    ensures
        after.contains_key(seq),
        after[seq].spec_addr() == target,
        after[seq].spec_signal() == signal,
        after.remove(seq) == before.remove(seq),
{
    assert(after.remove(seq) =~= before.remove(seq));
}

/// A probe keeps waiting until its own acknowledgement arrives: taking out
/// the handler of any other sequence number leaves it in place.
pub proof fn law_other_ack_keeps_probe<H>(pending: Map<SeqNum, AckHandler<H>>, seq: SeqNum, other: SeqNum)
    requires
        pending.contains_key(seq),
        other != seq,
    ensures
        pending.remove(other).contains_key(seq),
        pending.remove(other)[seq] == pending[seq],
{
}

/// Consecutive probes get different sequence numbers.
pub proof fn law_seq_after_differs(seq: SeqNum)
    ensures
        seq_after(seq) != seq,
{
}

/// The probes that await acknowledgement, each with the handler to run when
/// its acknowledgement arrives.
#[derive(Debug)]
pub struct Acks<H> {
    acks: HashMap<SeqNum, AckHandler<H>>,
    timeout: u128,
    seq_num: SeqNum,
    epoch: Instant,
}

impl<H> Acks<H> {
    /// The timeout, in nanoseconds.
    pub closed spec fn spec_timeout(&self) -> u128 {
        self.timeout
    }

    /// The sequence number that the next probe will get.
    pub closed spec fn spec_seq_num(&self) -> SeqNum {
        self.seq_num
    }

    /// The waiting handlers by sequence number.
    pub closed spec fn pending(&self) -> Map<SeqNum, AckHandler<H>> {
        self.acks@
    }

    /// No probe waits yet; the first one gets sequence number zero. The
    /// timeout is read from `timeout` in nanoseconds.
    pub fn new(timeout: Duration) -> (a: Acks<H>)
        ensures
            a.spec_timeout() == span_nanos(timeout),
            a.spec_seq_num() == 0,
            a.pending() == Map::<SeqNum, AckHandler<H>>::empty(),
            a.pending().dom().finite(),
    {
        Acks::with_timeout_nanos(duration_nanos(&timeout))
    }

    /// No probe waits yet; the timeout is `timeout` nanoseconds.
    pub fn with_timeout_nanos(timeout: u128) -> (a: Acks<H>)
        ensures
            a.spec_timeout() == timeout,
            a.spec_seq_num() == 0,
            a.pending() == Map::<SeqNum, AckHandler<H>>::empty(),
            a.pending().dom().finite(),
    {
        Acks { acks: HashMap::new(), timeout, seq_num: 0, epoch: instant_now() }
    }

    /// Records a probe sent now to `target` whose acknowledgement fires
    /// `signal`. It gets the current sequence number, which is returned; the
    /// counter moves on to the next.
    pub fn add(&mut self, target: Addr, signal: H) -> (seq: SeqNum)
        ensures
            seq == old(self).spec_seq_num(),
            final(self).spec_seq_num() == seq_after(seq),
            final(self).spec_timeout() == old(self).spec_timeout(),
            final(self).pending().dom().finite(),
            probe_recorded(old(self).pending(), final(self).pending(), seq, target, signal),
    {
        let now = nanos_since(&self.epoch);
        self.add_at(target, signal, now)
    }

    /// As `add`, for a probe sent at time `now`.
    pub fn add_at(&mut self, target: Addr, signal: H, now: u128) -> (seq: SeqNum)
        ensures
            seq == old(self).spec_seq_num(),
            final(self).spec_seq_num() == seq_after(seq),
            final(self).spec_timeout() == old(self).spec_timeout(),
            final(self).pending().dom().finite(),
            probe_recorded(old(self).pending(), final(self).pending(), seq, target, signal),
            final(self).pending()[seq].spec_sent_at() == now,
    {
        let seq_num = self.seq_num;
        self.next_seq();
        self.acks.insert(seq_num, AckHandler::new(target, signal, now));
        seq_num
    }

    /// Takes out the handler that waits for the acknowledgement `seq`, if
    /// one does; the caller fires its signal.
    pub fn handle_ack(&mut self, seq: SeqNum) -> (h: Option<AckHandler<H>>)
        ensures
            final(self).spec_seq_num() == old(self).spec_seq_num(),
            final(self).spec_timeout() == old(self).spec_timeout(),
            final(self).pending().dom().finite(),
            final(self).pending() == old(self).pending().remove(seq),
            match h {
                Some(h) => old(self).pending().contains_key(seq) && h == old(self).pending()[seq],
                None => !old(self).pending().contains_key(seq),
            },
    {
        self.acks.remove(&seq)
    }

    /// Advances the sequence number, wrapping around at the top, and returns
    /// the new one.
    pub fn next_seq(&mut self) -> (seq: SeqNum)
        ensures
            seq == seq_after(old(self).spec_seq_num()),
            final(self).spec_seq_num() == seq,
            final(self).spec_timeout() == old(self).spec_timeout(),
            final(self).pending().dom().finite(),
            final(self).pending() == old(self).pending(),
    {
        let new_seq_num = self.seq_num.wrapping_add(1);
        self.seq_num = new_seq_num;
        new_seq_num
    }

    /// The number of probes that await acknowledgement.
    pub fn len(&self) -> (n: usize)
        ensures
            n == self.pending().len(),
            self.pending().dom().finite(),
    {
        self.acks.len()
    }
}

/// A set of waiting handlers is finite.
pub proof fn lemma_pending_finite<H>(a: Acks<H>)
    ensures
        a.pending().dom().finite(),
{
}

} // verus!
