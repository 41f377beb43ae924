use vstd::prelude::*;

use crate::addr::Addr;
use crate::id::NodeId;

verus! {

/// What this node believes of a member of the cluster.
#[derive(Clone, Copy, Debug, PartialEq, Eq, Structural)]
pub enum PeerState {
    Alive,
    Dead,
    Suspected,
}

/// A member of the cluster: its identity, where it listens, and its state.
#[derive(Clone, Copy, Debug, PartialEq, Eq, Structural)]
pub struct Peer {
    id: NodeId,
    addr: Addr,
    state: PeerState,
}

impl Peer {
    pub closed spec fn spec_id(&self) -> NodeId {
        self.id
    }

    pub closed spec fn spec_addr(&self) -> Addr {
        self.addr
    }

    pub closed spec fn spec_state(&self) -> PeerState {
        self.state
    }

    /// The peer with identity `id` at `addr` that has just been seen alive.
    pub closed spec fn alive(id: NodeId, addr: Addr) -> Peer {
        Peer { id, addr, state: PeerState::Alive }
    }

    /// A peer that has just been seen alive.
    pub fn new_alive(id: NodeId, addr: Addr) -> (p: Peer)
        ensures
            p == Peer::alive(id, addr),
            p.spec_id() == id,
            p.spec_addr() == addr,
            p.spec_state() == PeerState::Alive,
    {
        Peer { id, addr, state: PeerState::Alive }
    }

    pub fn id(&self) -> (r: NodeId)
        ensures
            r == self.spec_id(),
    {
        self.id
    }

    pub fn addr(&self) -> (r: Addr)
        ensures
            r == self.spec_addr(),
    {
        self.addr
    }

    pub fn state(&self) -> (r: PeerState)
        ensures
            r == self.spec_state(),
    {
        self.state
    }
}

/// What an alive peer's accessors give.
pub broadcast proof fn lemma_alive_fields(id: NodeId, addr: Addr)
    ensures
        (#[trigger] Peer::alive(id, addr)).spec_id() == id,
        Peer::alive(id, addr).spec_addr() == addr,
        Peer::alive(id, addr).spec_state() == PeerState::Alive,
{
}

} // verus!
