use vstd::prelude::*;

use indexmap::IndexMap;

use crate::acks::{probe_recorded, seq_after, AckHandler, Acks, SeqNum};
use crate::addr::Addr;
use crate::broadcasts::{Broadcast, Broadcasts};
use crate::id::{is_version4, NodeId};
use crate::peer::{lemma_alive_fields, Peer};
use crate::table::{
    distinct_keys, has_key, insert_entry, key_index, table_choose, table_contains_key, table_entries,
    table_get_index, table_insert, table_len, table_new,
};

verus! {

broadcast use lemma_alive_fields;

/// Whether this node has joined a cluster.
#[derive(Clone, Copy, Debug, PartialEq, Eq, Structural)]
pub enum NodeState {
    Connected,
    Disconnected,
}

/// A well-formed peer table keys each peer by its own address, and no two
/// entries share a key.
pub open spec fn table_wf(entries: Seq<(Addr, Peer)>) -> bool {
    &&& forall|i: int| 0 <= i < entries.len() ==> #[trigger] entries[i].0 == entries[i].1.spec_addr()
    &&& distinct_keys(entries)
}

/// The table after learning of the peer `id` at `addr`: a new entry, alive,
/// at the end, unless the address is known already.
pub open spec fn add_if_absent(entries: Seq<(Addr, Peer)>, addr: Addr, id: NodeId) -> Seq<(Addr, Peer)> {
    if has_key(entries, addr) {
        entries
    } else {
        entries.push((addr, Peer::alive(id, addr)))
    }
}

/// The table after learning of each of `incoming` in turn.
pub open spec fn synced(entries: Seq<(Addr, Peer)>, incoming: Seq<(Addr, NodeId)>) -> Seq<(Addr, Peer)>
    decreases incoming.len(),
{
    if incoming.len() == 0 {
        entries
    } else {
        let before = synced(entries, incoming.drop_last());
        add_if_absent(before, incoming.last().0, incoming.last().1)
    }
}

/// The table and the broadcast queue after applying one received broadcast,
/// on the node with identity `us`. A join of another node that is not known
/// yet adds the node and passes the broadcast on; a join of a known address
/// changes nothing; a join under our own identity is passed on.
pub open spec fn apply_one(
    us: NodeId,
    entries: Seq<(Addr, Peer)>,
    queue: Seq<Broadcast>,
    b: Broadcast,
) -> (Seq<(Addr, Peer)>, Seq<Broadcast>) {
    match b {
        Broadcast::Joined(id, addr) => {
            if id != us {
                if !has_key(entries, addr) {
                    (entries.push((addr, Peer::alive(id, addr))), queue.push(b))
                } else {
                    (entries, queue)
                }
            } else {
                (entries, queue.push(b))
            }
        },
    }
}

/// The table and the queue after applying each of `received` in turn.
pub open spec fn applied(
    us: NodeId,
    entries: Seq<(Addr, Peer)>,
    queue: Seq<Broadcast>,
    received: Seq<Broadcast>,
) -> (Seq<(Addr, Peer)>, Seq<Broadcast>)
    decreases received.len(),
{
    if received.len() == 0 {
        (entries, queue)
    } else {
        let before = applied(us, entries, queue, received.drop_last());
        apply_one(us, before.0, before.1, received.last())
    }
}

/// Inserting a peer under its own address keeps a table well-formed.
pub proof fn lemma_insert_keeps_wf(entries: Seq<(Addr, Peer)>, peer: Peer)
    requires
        table_wf(entries),
    ensures
        table_wf(insert_entry(entries, peer.spec_addr(), peer)),
        has_key(insert_entry(entries, peer.spec_addr(), peer), peer.spec_addr()),
{
    let key = peer.spec_addr();
    let r = insert_entry(entries, key, peer);
    if has_key(entries, key) {
        let k = key_index(entries, key);
        assert(r[k].0 == key);
    } else {
        assert(r[entries.len() as int].0 == key);
    }
}

/// Adding a peer only where its address is unknown keeps a table well-formed.
pub proof fn lemma_add_if_absent_keeps_wf(entries: Seq<(Addr, Peer)>, addr: Addr, id: NodeId)
    requires
        table_wf(entries),
    ensures
        table_wf(add_if_absent(entries, addr, id)),
        has_key(add_if_absent(entries, addr, id), addr),
{
    if !has_key(entries, addr) {
        let r = add_if_absent(entries, addr, id);
        assert(r[entries.len() as int].0 == addr);
        assert forall|i: int, j: int| 0 <= i < j < r.len() implies #[trigger] r[i].0 != #[trigger] r[j].0 by {
            assert(r[i] == entries[i]);
            if j < entries.len() {
                assert(r[j] == entries[j]);
            } else {
                assert(entries[i].0 != addr);
            }
        }
    }
}

/// Learning of peers never changes or reorders the peers already known: the
/// known entries stay, as they were, at the front of the table.
pub proof fn law_synced_keeps_known(entries: Seq<(Addr, Peer)>, incoming: Seq<(Addr, NodeId)>)
    ensures
        entries.len() <= synced(entries, incoming).len(),
        forall|i: int| 0 <= i < entries.len() ==> #[trigger] synced(entries, incoming)[i] == entries[i],
    decreases incoming.len(),
{
    if incoming.len() > 0 {
        law_synced_keeps_known(entries, incoming.drop_last());
    }
}

/// After learning of peers, every address among them is known.
pub proof fn law_synced_learns_all(entries: Seq<(Addr, Peer)>, incoming: Seq<(Addr, NodeId)>)
    ensures
        forall|j: int|
            0 <= j < incoming.len() ==> has_key(synced(entries, incoming), #[trigger] incoming[j].0),
    decreases incoming.len(),
{
    if incoming.len() > 0 {
        let prefix = incoming.drop_last();
        let before = synced(entries, prefix);
        let last = incoming.last();
        law_synced_learns_all(entries, prefix);
        let after = synced(entries, incoming);
        assert(after == add_if_absent(before, last.0, last.1));
        assert forall|j: int| 0 <= j < incoming.len() implies has_key(after, #[trigger] incoming[j].0) by {
            if j < incoming.len() - 1 {
                assert(incoming[j] == prefix[j]);
                let k = choose|k: int| 0 <= k < before.len() && #[trigger] before[k].0 == prefix[j].0;
                if !has_key(before, last.0) {
                    assert(after[k] == before[k]);
                }
            } else {
                if !has_key(before, last.0) {
                    assert(after[before.len() as int].0 == last.0);
                }
            }
        }
    }
}

/// The table holds the peer `id` at `addr`, alive, under that address.
pub open spec fn knows_as(entries: Seq<(Addr, Peer)>, addr: Addr, id: NodeId) -> bool {
    exists|k: int| 0 <= k < entries.len() && #[trigger] entries[k] == (addr, Peer::alive(id, addr))
}

/// Every address known after learning of peers was known before or was
/// among them.
pub proof fn lemma_synced_keys_from(
    entries: Seq<(Addr, Peer)>,
    incoming: Seq<(Addr, NodeId)>,
    addr: Addr,
)
    requires
        has_key(synced(entries, incoming), addr),
    ensures
        has_key(entries, addr) || exists|j: int| 0 <= j < incoming.len() && #[trigger] incoming[j].0 == addr,
    decreases incoming.len(),
{
    if incoming.len() > 0 {
        let prefix = incoming.drop_last();
        let before = synced(entries, prefix);
        let last = incoming.last();
        let after = synced(entries, incoming);
        if has_key(before, addr) {
            lemma_synced_keys_from(entries, prefix, addr);
            if !has_key(entries, addr) {
                let j = choose|j: int| 0 <= j < prefix.len() && #[trigger] prefix[j].0 == addr;
                assert(incoming[j] == prefix[j]);
            }
        } else {
            let k = choose|k: int| 0 <= k < after.len() && #[trigger] after[k].0 == addr;
            if has_key(before, last.0) {
                assert(false);
            } else if k < before.len() {
                assert(after[k] == before[k]);
            } else {
                assert(incoming[incoming.len() - 1].0 == addr);
            }
        }
    }
}

/// Learning of peers gives each new address the identity that came with
/// its first mention: where `incoming[i]` names an address that was not
/// known and that no earlier item names, the table afterwards holds that
/// address's peer, alive, with the identity of `incoming[i]`.
pub proof fn law_synced_first_wins(entries: Seq<(Addr, Peer)>, incoming: Seq<(Addr, NodeId)>, i: int)
    requires
        0 <= i < incoming.len(),
        !has_key(entries, incoming[i].0),
        forall|j: int| 0 <= j < i ==> (#[trigger] incoming[j]).0 != incoming[i].0,
    ensures
        knows_as(synced(entries, incoming), incoming[i].0, incoming[i].1),
    decreases incoming.len(),
{
    let prefix = incoming.drop_last();
    let before = synced(entries, prefix);
    let after = synced(entries, incoming);
    let last = incoming.last();
    if i == incoming.len() - 1 {
        if has_key(before, last.0) {
            lemma_synced_keys_from(entries, prefix, last.0);
            let j = choose|j: int| 0 <= j < prefix.len() && #[trigger] prefix[j].0 == last.0;
            assert(incoming[j] == prefix[j]);
            assert(false);
        }
        assert(after[before.len() as int] == (last.0, Peer::alive(last.1, last.0)));
    } else {
        assert(prefix[i] == incoming[i]);
        assert forall|j: int| 0 <= j < i implies (#[trigger] prefix[j]).0 != prefix[i].0 by {
            assert(prefix[j] == incoming[j]);
        }
        law_synced_first_wins(entries, prefix, i);
        let k = choose|k: int|
            0 <= k < before.len() && #[trigger] before[k] == (incoming[i].0, Peer::alive(
                incoming[i].1,
                incoming[i].0,
            ));
        if !has_key(before, last.0) {
            assert(after[k] == before[k]);
        }
    }
}

/// Applying received broadcasts never changes or reorders the peers already
/// known: a join of a known address is ignored, new peers go last.
pub proof fn law_applied_keeps_known(
    us: NodeId,
    entries: Seq<(Addr, Peer)>,
    queue: Seq<Broadcast>,
    received: Seq<Broadcast>,
)
    ensures
        entries.len() <= applied(us, entries, queue, received).0.len(),
        forall|i: int|
            0 <= i < entries.len() ==> #[trigger] applied(us, entries, queue, received).0[i] == entries[i],
        queue.len() <= applied(us, entries, queue, received).1.len(),
        forall|i: int|
            0 <= i < queue.len() ==> #[trigger] applied(us, entries, queue, received).1[i] == queue[i],
    decreases received.len(),
{
    if received.len() > 0 {
        law_applied_keeps_known(us, entries, queue, received.drop_last());
    }
}

/// A node never learns of itself through broadcasts: if no known peer has
/// the node's own identity, none has after applying received broadcasts,
/// whatever they say.
pub proof fn law_applied_never_adds_self(
    us: NodeId,
    entries: Seq<(Addr, Peer)>,
    queue: Seq<Broadcast>,
    received: Seq<Broadcast>,
)
    requires
        forall|i: int| 0 <= i < entries.len() ==> (#[trigger] entries[i]).1.spec_id() != us,
    ensures
        forall|i: int|
            0 <= i < applied(us, entries, queue, received).0.len() ==> (#[trigger] applied(
                us,
                entries,
                queue,
                received,
            ).0[i]).1.spec_id() != us,
    decreases received.len(),
{
    if received.len() > 0 {
        law_applied_never_adds_self(us, entries, queue, received.drop_last());
        let before = applied(us, entries, queue, received.drop_last());
        let after = applied(us, entries, queue, received);
        match received.last() {
            Broadcast::Joined(id, addr) => {
                if id != us && !has_key(before.0, addr) {
                    assert forall|i: int| 0 <= i < after.0.len() implies (#[trigger] after.0[i]).1.spec_id()
                        != us by {
                        if i < before.0.len() {
                            assert(after.0[i] == before.0[i]);
                        }
                    }
                }
            },
        }
    }
}

/// A join spreads: a node that applies a broadcast of another node's join
/// knows that node's address afterwards, whatever else it applies.
pub proof fn law_applied_learns_joined(
    us: NodeId,
    entries: Seq<(Addr, Peer)>,
    queue: Seq<Broadcast>,
    received: Seq<Broadcast>,
    i: int,
    id: NodeId,
    addr: Addr,
)
    requires
        0 <= i < received.len(),
        received[i] == Broadcast::Joined(id, addr),
        id != us,
    ensures
        has_key(applied(us, entries, queue, received).0, addr),
    decreases received.len(),
{
    let prefix = received.drop_last();
    let before = applied(us, entries, queue, prefix);
    let after = applied(us, entries, queue, received);
    if i < received.len() - 1 {
        assert(prefix[i] == received[i]);
        law_applied_learns_joined(us, entries, queue, prefix, i, id, addr);
        let k = choose|k: int| 0 <= k < before.0.len() && #[trigger] before.0[k].0 == addr;
        match received.last() {
            Broadcast::Joined(id2, addr2) => {
                if id2 != us && !has_key(before.0, addr2) {
                    assert(after.0[k] == before.0[k]);
                }
            },
        }
    } else {
        if !has_key(before.0, addr) {
            assert(after.0[before.0.len() as int].0 == addr);
        }
    }
}

/// The state of a node: who it is, whom it knows, whether it has joined,
/// what it has to tell, and which of its probes await an answer. `H` is the
/// signal that an answered probe fires.
#[derive(Debug)]
pub struct State<H> {
    id: NodeId,
    peers: IndexMap<Addr, Peer>,
    state: NodeState,
    broadcasts: Broadcasts,
    acks: Acks<H>,
}

impl<H> State<H> {
    /// The node's identity.
    pub closed spec fn spec_id(&self) -> NodeId {
        self.id
    }

    /// The peer table, in the order in which peers were learned.
    pub closed spec fn entries(&self) -> Seq<(Addr, Peer)> {
        table_entries(self.peers)
    }

    /// Whether the node has joined.
    pub closed spec fn node_state(&self) -> NodeState {
        self.state
    }

    /// The broadcasts waiting to be spread.
    pub closed spec fn queued(&self) -> Seq<Broadcast> {
        self.broadcasts@
    }

    /// The probes awaiting acknowledgement.
    pub closed spec fn spec_acks(&self) -> Acks<H> {
        self.acks
    }

    pub closed spec fn wf(&self) -> bool {
        &&& table_wf(table_entries(self.peers))
        &&& self.broadcasts.wf()
    }

    /// A node with a fresh random identity (a version 4 UUID), that knows no peer, has not
    /// joined, has nothing to tell, and awaits no acknowledgement; its
    /// probes time out after two seconds.
    pub fn new() -> (s: State<H>)
        ensures
            s.wf(),
            is_version4(s.spec_id().0),
            s.entries() == Seq::<(Addr, Peer)>::empty(),
            s.node_state() == NodeState::Disconnected,
            s.queued() == Seq::<Broadcast>::empty(),
            s.spec_acks().pending() == Map::<SeqNum, AckHandler<H>>::empty(),
            s.spec_acks().spec_seq_num() == 0,
            s.spec_acks().spec_timeout() == 2_000_000_000,
    {
        State {
            id: NodeId::new_v4(),
            peers: table_new(),
            state: NodeState::Disconnected,
            broadcasts: Broadcasts::new(),
            acks: Acks::with_timeout_nanos(2_000_000_000),
        }
    }

    /// The node's identity.
    pub fn id(&self) -> (id: NodeId)
        ensures
            id == self.spec_id(),
    {
        self.id
    }

    /// A snapshot of the peer table: each peer under its address, in the
    /// table's order.
    pub fn peers(&self) -> (r: Vec<(Addr, Peer)>)
        ensures
            r@ == self.entries(),
    {
        let n = table_len(&self.peers);
        let mut r: Vec<(Addr, Peer)> = Vec::new();
        let mut i: usize = 0;
        while i < n
            invariant
                n == table_entries(self.peers).len(),
                i <= n,
                r@ == table_entries(self.peers).take(i as int),
            decreases n - i,
        {
            let e = table_get_index(&self.peers, i);
            match e {
                Some(entry) => {
                    r.push(entry);
                },
                None => {},
            }
            assert(table_entries(self.peers).take(i + 1) == table_entries(self.peers).take(
                i as int,
            ).push(table_entries(self.peers)[i as int]));
            i = i + 1;
        }
        assert(table_entries(self.peers).take(n as int) == table_entries(self.peers));
        r
    }

    /// Whether the node has joined.
    pub fn state(&self) -> (s: NodeState)
        ensures
            s == self.node_state(),
    {
        self.state
    }

    /// The probes awaiting acknowledgement.
    pub fn acks(&self) -> (a: &Acks<H>)
        ensures
            *a == self.spec_acks(),
    {
        &self.acks
    }

    /// The broadcasts waiting to be spread.
    pub fn broadcasts(&self) -> (b: &Broadcasts)
        ensures
            b@ == self.queued(),
            self.wf() ==> b.wf(),
    {
        &self.broadcasts
    }

    /// Records whether the node has joined.
    pub fn update_state(&mut self, state: NodeState)
        requires
            old(self).wf(),
        ensures
            final(self).wf(),
            final(self).node_state() == state,
            final(self).spec_id() == old(self).spec_id(),
            final(self).entries() == old(self).entries(),
            final(self).queued() == old(self).queued(),
            final(self).spec_acks() == old(self).spec_acks(),
    {
        self.state = state;
    }

    /// Learns of the peers in `incoming`, in order: each address that is not
    /// known yet gets an alive peer with the identity given beside it. Known
    /// addresses are left as they are.
    pub fn peers_sync(&mut self, incoming: Vec<(Addr, NodeId)>)
        requires
            old(self).wf(),
        ensures
            final(self).wf(),
            final(self).entries() == synced(old(self).entries(), incoming@),
            final(self).spec_id() == old(self).spec_id(),
            final(self).node_state() == old(self).node_state(),
            final(self).queued() == old(self).queued(),
            final(self).spec_acks() == old(self).spec_acks(),
    {
        sync_table(&mut self.peers, &incoming);
    }

    /// One of the known peers, picked at random; none when no peer is known.
    pub fn get_peer(&self) -> (r: Option<Peer>)
        ensures
            r is None <==> self.entries().len() == 0,
            r matches Some(p) ==> exists|i: int|
                0 <= i < self.entries().len() && #[trigger] self.entries()[i].1 == p,
    {
        let r = table_choose(&self.peers);
        proof {
            if let Some(p) = r {
                let i = choose|i: int|
                    0 <= i < table_entries(self.peers).len() && #[trigger] table_entries(
                        self.peers,
                    )[i].1 == p;
                assert(self.entries()[i].1 == p);
            }
        }
        r
    }

    /// Records that the node `id` at `addr` has joined through this node:
    /// it becomes an alive peer under its address, replacing what was known
    /// there, and its join is queued to be spread.
    pub fn peer_join(&mut self, id: NodeId, addr: Addr)
        requires
            old(self).wf(),
        ensures
            final(self).wf(),
            final(self).entries() == insert_entry(old(self).entries(), addr, Peer::alive(id, addr)),
            final(self).queued() == old(self).queued().push(Broadcast::Joined(id, addr)),
            final(self).spec_id() == old(self).spec_id(),
            final(self).node_state() == old(self).node_state(),
            final(self).spec_acks() == old(self).spec_acks(),
    {
        let peer = Peer::new_alive(id, addr);
        proof {
            lemma_insert_keeps_wf(table_entries(self.peers), peer);
        }
        table_insert(&mut self.peers, peer.addr(), peer);
        self.add_broadcast(Broadcast::Joined(id, addr));
    }

    /// Queues a broadcast to be spread.
    pub fn add_broadcast(&mut self, broadcast: Broadcast)
        requires
            old(self).wf(),
        ensures
            final(self).wf(),
            final(self).queued() == old(self).queued().push(broadcast),
            final(self).entries() == old(self).entries(),
            final(self).spec_id() == old(self).spec_id(),
            final(self).node_state() == old(self).node_state(),
            final(self).spec_acks() == old(self).spec_acks(),
    {
        self.broadcasts.add(broadcast);
    }

    /// Applies broadcasts received from another node, in order (see
    /// `apply_one`).
    pub fn apply_broadcasts(&mut self, broadcasts: Vec<Broadcast>)
        requires
            old(self).wf(),
        ensures
            final(self).wf(),
            (final(self).entries(), final(self).queued()) == applied(
                old(self).spec_id(),
                old(self).entries(),
                old(self).queued(),
                broadcasts@,
            ),
            final(self).spec_id() == old(self).spec_id(),
            final(self).node_state() == old(self).node_state(),
            final(self).spec_acks() == old(self).spec_acks(),
    {
        apply_to(self.id, &mut self.peers, &mut self.broadcasts, &broadcasts);
    }

    /// The broadcasts to piggyback on the next message (see
    /// `Broadcasts::get`).
    pub fn next_broadcasts(&mut self) -> (r: Vec<Broadcast>)
        requires
            old(self).wf(),
        ensures
            final(self).wf(),
            r@ == old(self).queued(),
            final(self).queued() == old(self).queued(),
            final(self).entries() == old(self).entries(),
            final(self).spec_id() == old(self).spec_id(),
            final(self).node_state() == old(self).node_state(),
            final(self).spec_acks() == old(self).spec_acks(),
    {
        self.broadcasts.get()
    }

    /// Records a probe of `target` whose acknowledgement fires `signal` (see
    /// `Acks::add`).
    pub fn add_ack(&mut self, target: Addr, signal: H) -> (seq: SeqNum)
        requires
            old(self).wf(),
        ensures
            final(self).wf(),
            seq == old(self).spec_acks().spec_seq_num(),
            final(self).spec_acks().spec_seq_num() == seq_after(seq),
            final(self).spec_acks().spec_timeout() == old(self).spec_acks().spec_timeout(),
            probe_recorded(
                old(self).spec_acks().pending(),
                final(self).spec_acks().pending(),
                seq,
                target,
                signal,
            ),
            final(self).entries() == old(self).entries(),
            final(self).queued() == old(self).queued(),
            final(self).spec_id() == old(self).spec_id(),
            final(self).node_state() == old(self).node_state(),
    {
        self.acks.add(target, signal)
    }

    /// Takes out the handler waiting for acknowledgement `seq` (see
    /// `Acks::handle_ack`).
    pub fn handle_ack(&mut self, seq: SeqNum) -> (h: Option<AckHandler<H>>)
        requires
            old(self).wf(),
        ensures
            final(self).wf(),
            final(self).spec_acks().pending() == old(self).spec_acks().pending().remove(seq),
            final(self).spec_acks().spec_seq_num() == old(self).spec_acks().spec_seq_num(),
            final(self).spec_acks().spec_timeout() == old(self).spec_acks().spec_timeout(),
            match h {
                Some(h) => old(self).spec_acks().pending().contains_key(seq) && h
                    == old(self).spec_acks().pending()[seq],
                None => !old(self).spec_acks().pending().contains_key(seq),
            },
            final(self).entries() == old(self).entries(),
            final(self).queued() == old(self).queued(),
            final(self).spec_id() == old(self).spec_id(),
            final(self).node_state() == old(self).node_state(),
    {
        self.acks.handle_ack(seq)
    }
}

/// Learns of each of `incoming` in turn (see `State::peers_sync`).
fn sync_table(peers: &mut IndexMap<Addr, Peer>, incoming: &Vec<(Addr, NodeId)>)
    requires
        table_wf(table_entries(*old(peers))),
    ensures
        table_wf(table_entries(*final(peers))),
        table_entries(*final(peers)) == synced(table_entries(*old(peers)), incoming@),
{
    let mut i: usize = 0;
    while i < incoming.len()
        invariant
            i <= incoming@.len(),
            table_wf(table_entries(*peers)),
            table_entries(*peers) == synced(table_entries(*old(peers)), incoming@.take(i as int)),
        decreases incoming@.len() - i,
    {
        let (addr, id) = incoming[i];
        assert(incoming@.take(i + 1).drop_last() == incoming@.take(i as int));
        proof {
            lemma_add_if_absent_keeps_wf(table_entries(*peers), addr, id);
        }
        if !table_contains_key(peers, &addr) {
            let peer = Peer::new_alive(id, addr);
            table_insert(peers, addr, peer);
        }
        i = i + 1;
    }
    assert(incoming@.take(incoming@.len() as int) == incoming@);
}

/// Applies each of `received` in turn (see `State::apply_broadcasts`).
fn apply_to(
    us: NodeId,
    peers: &mut IndexMap<Addr, Peer>,
    queue: &mut Broadcasts,
    received: &Vec<Broadcast>,
)
    requires
        table_wf(table_entries(*old(peers))),
        old(queue).wf(),
    ensures
        table_wf(table_entries(*final(peers))),
        final(queue).wf(),
        (table_entries(*final(peers)), final(queue)@) == applied(
            us,
            table_entries(*old(peers)),
            old(queue)@,
            received@,
        ),
{
    let mut i: usize = 0;
    while i < received.len()
        invariant
            i <= received@.len(),
            table_wf(table_entries(*peers)),
            queue.wf(),
            (table_entries(*peers), queue@) == applied(
                us,
                table_entries(*old(peers)),
                old(queue)@,
                received@.take(i as int),
            ),
        decreases received@.len() - i,
    {
        let b = received[i];
        assert(received@.take(i + 1).drop_last() == received@.take(i as int));
        match b {
            Broadcast::Joined(id, addr) => {
                if id != us {
                    if !table_contains_key(peers, &addr) {
                        proof {
                            lemma_add_if_absent_keeps_wf(table_entries(*peers), addr, id);
                        }
                        let peer = Peer::new_alive(id, addr);
                        table_insert(peers, addr, peer);
                        queue.add(Broadcast::Joined(id, addr));
                    }
                } else {
                    queue.add(Broadcast::Joined(id, addr));
                }
            },
        }
        i = i + 1;
    }
    assert(received@.take(received@.len() as int) == received@);
}

} // verus!
