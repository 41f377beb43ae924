use vstd::prelude::*;

use crate::addr::Addr;
use crate::broadcasts::Broadcast;
use crate::error::{Error, Result};
use crate::id::{uuid_parse, uuid_text, NodeId};
use crate::peer::Peer;
use crate::proto::{Peer as PeerRecord, Pull, Push};
use crate::state::{
    knows_as, law_synced_first_wins, law_synced_keeps_known, law_synced_learns_all, synced, State,
};
use crate::table::{distinct_keys, has_key, insert_entry};

verus! {

/// `records` names the peers of `entries`, in the same order: each record
/// holds the textual identity and the address of the entry at its position.
pub open spec fn lists_peers(records: Seq<PeerRecord>, entries: Seq<(Addr, Peer)>) -> bool {
    &&& records.len() == entries.len()
    &&& forall|i: int|
        0 <= i < records.len() ==> {
            &&& (#[trigger] records[i]).id@ == uuid_text(entries[i].1.spec_id().0)
            &&& uuid_parse(records[i].id@) == Some(entries[i].1.spec_id().0)
            &&& records[i].address == entries[i].0
        }
}

/// `record` names the node `id` at `addr`.
pub open spec fn names(record: PeerRecord, id: NodeId, addr: Addr) -> bool {
    &&& record.id@ == uuid_text(id.0)
    &&& uuid_parse(record.id@) == Some(id.0)
    &&& record.address == addr
}

/// The membership service that answers join requests for a node listening
/// at `addr`, whose state is `inner`.
#[derive(Debug, Clone)]
pub struct MemberServer<S> {
    addr: Addr,
    inner: S,
}

impl<S> MemberServer<S> {
    pub closed spec fn spec_addr(&self) -> Addr {
        self.addr
    }

    pub closed spec fn spec_inner(&self) -> S {
        self.inner
    }

    pub fn new(addr: Addr, inner: S) -> (m: MemberServer<S>)
        ensures
            m.spec_addr() == addr,
            m.spec_inner() == inner,
    {
        MemberServer { addr, inner }
    }

    /// The address the service answers for.
    pub fn addr(&self) -> (a: Addr)
        ensures
            a == self.spec_addr(),
    {
        self.addr
    }

    /// The state the service answers from.
    pub fn inner(&self) -> (s: &S)
        ensures
            *s == self.spec_inner(),
    {
        &self.inner
    }

    /// Answers a join request on the node at `addr` with state `inner`.
    /// The answer names this node and lists the peers known before the
    /// request; then the joining node becomes a peer, and its join is queued
    /// to be spread. A joining node whose identity is no UUID is refused with
    /// `Error::Uuid`, and the state is left as it was.
    pub fn join<H>(request: Push, addr: Addr, inner: &mut State<H>) -> (r: Result<Pull>)
        requires
            old(inner).wf(),
            request.from is Some,
        ensures
            final(inner).wf(),
            final(inner).spec_id() == old(inner).spec_id(),
            final(inner).node_state() == old(inner).node_state(),
            final(inner).spec_acks() == old(inner).spec_acks(),
            ({
                let from = request.from->0;
                match r {
                    Err(e) => {
                        &&& uuid_parse(from.id@) is None
                        &&& e is Uuid
                        &&& final(inner).entries() == old(inner).entries()
                        &&& final(inner).queued() == old(inner).queued()
                    },
                    Ok(pull) => {
                        &&& uuid_parse(from.id@) is Some
                        &&& lists_peers(pull.peers@, old(inner).entries())
                        &&& pull.peers@.len() == old(inner).entries().len()
                        &&& forall|i: int|
                            0 <= i < pull.peers@.len() ==> {
                                &&& uuid_parse((#[trigger] pull.peers@[i]).id@) == Some(
                                    old(inner).entries()[i].1.spec_id().0,
                                )
                                &&& pull.peers@[i].address == old(inner).entries()[i].0
                            }
                        &&& pull.from matches Some(me) && names(me, old(inner).spec_id(), addr)
                        &&& final(inner).entries() == insert_entry(
                            old(inner).entries(),
                            from.address,
                            Peer::alive(NodeId(uuid_parse(from.id@)->0), from.address),
                        )
                        &&& final(inner).queued() == old(inner).queued().push(
                            Broadcast::Joined(NodeId(uuid_parse(from.id@)->0), from.address),
                        )
                    },
                }
            }),
    {
        let from = match request.from {
            Some(f) => f,
            None => {
                assert(false);
                return Err(Error::Grpc(String::new()));
            },
        };
        let from_id = match NodeId::parse_str(from.id.as_str()) {
            Ok(id) => id,
            Err(e) => {
                return Err(Error::Uuid(e));
            },
        };
        let from_addr = from.address;
        let known = inner.peers();
        let mut peers: Vec<PeerRecord> = Vec::new();
        let mut i: usize = 0;
        while i < known.len()
            invariant
                i <= known@.len(),
                known@ == inner.entries(),
                lists_peers(peers@, known@.take(i as int)),
            decreases known@.len() - i,
        {
            let (peer_addr, peer) = known[i];
            let record = PeerRecord { id: peer.id().to_string(), address: peer_addr };
            peers.push(record);
            proof {
                let t = known@.take(i + 1);
                assert forall|j: int| 0 <= j < peers@.len() implies {
                    &&& (#[trigger] peers@[j]).id@ == uuid_text(t[j].1.spec_id().0)
                    &&& uuid_parse(peers@[j].id@) == Some(t[j].1.spec_id().0)
                    &&& peers@[j].address == t[j].0
                } by {
                    if j < i {
                        assert(t[j] == known@.take(i as int)[j]);
                    }
                }
            }
            i = i + 1;
        }
        assert(known@.take(known@.len() as int) == known@);
        inner.peer_join(from_id, from_addr);
        let current_peer = PeerRecord { id: inner.id().to_string(), address: addr };
        Ok(Pull { from: Some(current_peer), peers })
    }
}

/// The peers that a join reply announces, in order: those it lists, then the
/// node that answered, each with the identity that its text parses to.
pub open spec fn announced(pull: Pull) -> Seq<(Addr, NodeId)> {
    let listed = pull.peers@.map_values(
        |p: PeerRecord| (p.address, NodeId(uuid_parse(p.id@)->0)),
    );
    let from = pull.from->0;
    listed.push((from.address, NodeId(uuid_parse(from.id@)->0)))
}

/// What a node learns from a readable join reply, stated record by record:
/// every address the reply mentions is known afterwards, and an address
/// that was unknown and that no earlier record mentions is known as an
/// alive peer with the identity that its own record names (the answering
/// node counts after the listed ones).
pub open spec fn learned_reply(before: Seq<(Addr, Peer)>, after: Seq<(Addr, Peer)>, pull: Pull) -> bool {
    let records = pull.peers@;
    let from = pull.from->0;
    &&& forall|i: int| 0 <= i < records.len() ==> has_key(after, (#[trigger] records[i]).address)
    &&& has_key(after, from.address)
    &&& forall|i: int|
        0 <= i < records.len() && !has_key(before, (#[trigger] records[i]).address) && (forall|j: int|
            0 <= j < i ==> records[j].address != records[i].address) ==> knows_as(
            after,
            records[i].address,
            NodeId(uuid_parse(records[i].id@)->0),
        )
    &&& (!has_key(before, from.address) && (forall|j: int|
        0 <= j < records.len() ==> records[j].address != from.address)) ==> knows_as(
        after,
        from.address,
        NodeId(uuid_parse(from.id@)->0),
    )
}

/// Every identity in a join reply is a UUID, and the reply names who
/// answered.
pub open spec fn readable_reply(pull: Pull) -> bool {
    &&& pull.from is Some
    &&& uuid_parse(pull.from->0.id@) is Some
    &&& forall|i: int| 0 <= i < pull.peers@.len() ==> uuid_parse((#[trigger] pull.peers@[i]).id@) is Some
}

/// The join request that the node with state `state`, listening at `local`,
/// sends: it names itself as the sender and as the one peer it knows.
pub fn join_request<H>(state: &State<H>, local: Addr) -> (push: Push)
    ensures
        push.from matches Some(me) && names(me, state.spec_id(), local),
        push.peers@.len() == 1,
        names(push.peers@[0], state.spec_id(), local),
{
    let id = state.id().to_string();
    let from = PeerRecord { id, address: local };
    let copy = PeerRecord { id: from.id.clone(), address: from.address };
    let mut peers: Vec<PeerRecord> = Vec::new();
    peers.push(copy);
    Push { from: Some(from), peers }
}

/// Takes in the reply to this node's join request: the peers it announces
/// are learned in order (see `State::peers_sync`), and the node counts as
/// connected.
pub fn apply_join_reply<H>(state: &mut State<H>, pull: Pull)
    requires
        old(state).wf(),
        readable_reply(pull),
    ensures
        final(state).wf(),
        final(state).entries() == synced(old(state).entries(), announced(pull)),
        learned_reply(old(state).entries(), final(state).entries(), pull),
        final(state).node_state() == crate::state::NodeState::Connected,
        final(state).spec_id() == old(state).spec_id(),
        final(state).queued() == old(state).queued(),
        final(state).spec_acks() == old(state).spec_acks(),
{
    let ghost listed = pull.peers@.map_values(
        |p: PeerRecord| (p.address, NodeId(uuid_parse(p.id@)->0)),
    );
    let mut incoming: Vec<(Addr, NodeId)> = Vec::new();
    let mut i: usize = 0;
    while i < pull.peers.len()
        invariant
            i <= pull.peers@.len(),
            readable_reply(pull),
            listed == pull.peers@.map_values(
                |p: PeerRecord| (p.address, NodeId(uuid_parse(p.id@)->0)),
            ),
            incoming@ == listed.take(i as int),
        decreases pull.peers@.len() - i,
    {
        let record = &pull.peers[i];
        assert(uuid_parse(pull.peers@[i as int].id@) is Some);
        let id = match NodeId::parse_str(record.id.as_str()) {
            Ok(id) => id,
            Err(_) => {
                assert(false);
                NodeId(0)
            },
        };
        incoming.push((record.address, id));
        assert(listed.take(i + 1) == listed.take(i as int).push(listed[i as int]));
        i = i + 1;
    }
    assert(listed.take(listed.len() as int) == listed);
    let from = match &pull.from {
        Some(f) => f,
        None => {
            assert(false);
            return;
        },
    };
    let from_id = match NodeId::parse_str(from.id.as_str()) {
        Ok(id) => id,
        Err(_) => {
            assert(false);
            NodeId(0)
        },
    };
    incoming.push((from.address, from_id));
    assert(incoming@ == announced(pull));
    proof {
        law_join_reply_teaches(state.entries(), pull);
    }
    state.peers_sync(incoming);
    state.update_state(crate::state::NodeState::Connected);
}

/// Takes in a join reply if it is readable (see `apply_join_reply`) and
/// says so; an unreadable reply leaves the state as it was.
pub fn try_apply_join_reply<H>(state: &mut State<H>, pull: Pull) -> (applied: bool)
    requires
        old(state).wf(),
    ensures
        final(state).wf(),
        applied == readable_reply(pull),
        applied ==> final(state).entries() == synced(old(state).entries(), announced(pull)),
        applied ==> learned_reply(old(state).entries(), final(state).entries(), pull),
        applied ==> final(state).node_state() == crate::state::NodeState::Connected,
        !applied ==> *final(state) == *old(state),
        final(state).spec_id() == old(state).spec_id(),
        final(state).queued() == old(state).queued(),
        final(state).spec_acks() == old(state).spec_acks(),
{
    let readable = match &pull.from {
        None => false,
        Some(f) => match NodeId::parse_str(f.id.as_str()) {
            Ok(_) => true,
            Err(_) => false,
        },
    };
    if !readable {
        return false;
    }
    let mut i: usize = 0;
    while i < pull.peers.len()
        invariant
            i <= pull.peers@.len(),
            *state == *old(state),
            old(state).wf(),
            pull.from is Some,
            uuid_parse(pull.from->0.id@) is Some,
            forall|j: int| 0 <= j < i ==> uuid_parse((#[trigger] pull.peers@[j]).id@) is Some,
        decreases pull.peers@.len() - i,
    {
        match NodeId::parse_str(pull.peers[i].id.as_str()) {
            Ok(_) => {},
            Err(_) => {
                return false;
            },
        }
        i = i + 1;
    }
    apply_join_reply(state, pull);
    true
}

/// A join teaches the joining node the cluster: a reply made as
/// `MemberServer::join` makes it (naming the server and listing the peers
/// it knew) is readable, and once the joining node has taken it in, it knows
/// the server's address and every address the server knew, while the peers
/// it knew before stay as they were.
pub proof fn law_join_teaches_client(
    client: Seq<(Addr, Peer)>,
    server: Seq<(Addr, Peer)>,
    server_id: NodeId,
    server_addr: Addr,
    pull: Pull,
)
    requires
        lists_peers(pull.peers@, server),
        pull.from matches Some(me) && names(me, server_id, server_addr),
    ensures
        readable_reply(pull),
        has_key(synced(client, announced(pull)), server_addr),
        forall|i: int|
            0 <= i < server.len() ==> has_key(synced(client, announced(pull)), #[trigger] server[i].0),
        forall|i: int|
            0 <= i < client.len() ==> #[trigger] synced(client, announced(pull))[i] == client[i],
{
    let incoming = announced(pull);
    law_synced_learns_all(client, incoming);
    law_synced_keeps_known(client, incoming);
    assert(incoming[server.len() as int].0 == server_addr);
    assert forall|i: int| 0 <= i < server.len() implies has_key(
        synced(client, incoming),
        #[trigger] server[i].0,
    ) by {
        assert(incoming[i].0 == pull.peers@[i].address);
    }
}

/// A node that takes in a readable join reply learns what the reply says,
/// record by record (see `learned_reply`): each new address comes with the
/// identity named in its own record.
pub proof fn law_join_reply_teaches(entries: Seq<(Addr, Peer)>, pull: Pull)
    requires
        readable_reply(pull),
    ensures
        learned_reply(entries, synced(entries, announced(pull)), pull),
{
    let incoming = announced(pull);
    let records = pull.peers@;
    let from = pull.from->0;
    let after = synced(entries, incoming);
    assert forall|i: int| 0 <= i < records.len() implies incoming[i] == (
        records[i].address,
        NodeId(uuid_parse(records[i].id@)->0),
    ) by {}
    assert(incoming[records.len() as int] == (from.address, NodeId(uuid_parse(from.id@)->0)));
    law_synced_learns_all(entries, incoming);
    assert forall|i: int| 0 <= i < records.len() implies has_key(after, (#[trigger] records[i]).address) by {
        assert(incoming[i].0 == records[i].address);
    }
    assert(has_key(after, incoming[records.len() as int].0));
    assert forall|i: int|
        0 <= i < records.len() && !has_key(entries, (#[trigger] records[i]).address) && (forall|j: int|
            0 <= j < i ==> records[j].address != records[i].address) implies knows_as(
        after,
        records[i].address,
        NodeId(uuid_parse(records[i].id@)->0),
    ) by {
        assert forall|j: int| 0 <= j < i implies (#[trigger] incoming[j]).0 != incoming[i].0 by {
            assert(records[j].address != records[i].address);
        }
        law_synced_first_wins(entries, incoming, i);
    }
    if !has_key(entries, from.address) && (forall|j: int|
        0 <= j < records.len() ==> records[j].address != from.address) {
        let n = records.len() as int;
        assert forall|j: int| 0 <= j < n implies (#[trigger] incoming[j]).0 != incoming[n].0 by {
            assert(records[j].address != from.address);
        }
        law_synced_first_wins(entries, incoming, n);
    }
}

/// A join teaches the joining node the identities the server knew: for
/// every peer of the server's table whose address the joining node did not
/// know, the joining node afterwards knows that address as an alive peer
/// with the identity the server had for it; and it knows the server itself
/// by the server's identity, where neither it nor the server's table had
/// the server's address.
pub proof fn law_join_teaches_identities(
    client: Seq<(Addr, Peer)>,
    server: Seq<(Addr, Peer)>,
    server_id: NodeId,
    server_addr: Addr,
    pull: Pull,
)
    requires
        distinct_keys(server),
        lists_peers(pull.peers@, server),
        pull.from matches Some(me) && names(me, server_id, server_addr),
    ensures
        forall|i: int|
            0 <= i < server.len() && !has_key(client, (#[trigger] server[i]).0) ==> knows_as(
                synced(client, announced(pull)),
                server[i].0,
                server[i].1.spec_id(),
            ),
        (!has_key(client, server_addr) && !has_key(server, server_addr)) ==> knows_as(
            synced(client, announced(pull)),
            server_addr,
            server_id,
        ),
{
    let records = pull.peers@;
    law_join_teaches_client(client, server, server_id, server_addr, pull);
    law_join_reply_teaches(client, pull);
    assert forall|i: int|
        0 <= i < server.len() && !has_key(client, (#[trigger] server[i]).0) implies knows_as(
        synced(client, announced(pull)),
        server[i].0,
        server[i].1.spec_id(),
    ) by {
        assert(records[i].address == server[i].0);
        assert forall|j: int| 0 <= j < i implies records[j].address != records[i].address by {
            assert(records[j].address == server[j].0);
        }
        assert(!has_key(client, records[i].address));
    }
    if !has_key(client, server_addr) && !has_key(server, server_addr) {
        assert forall|j: int| 0 <= j < records.len() implies records[j].address != server_addr by {
            assert(records[j].address == server[j].0);
        }
    }
}

} // verus!
