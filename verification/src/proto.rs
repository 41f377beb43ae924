use vstd::prelude::*;

use crate::addr::Addr;

verus! {

/// A member as the join exchange names it: its identity in textual form
/// and its address.
#[derive(Clone, Debug, PartialEq, Eq)]
pub struct Peer {
    pub id: String,
    pub address: Addr,
}

/// A join request: who asks to join, and the peers it knows.
#[derive(Clone, Debug, PartialEq, Eq)]
pub struct Push {
    pub from: Option<Peer>,
    pub peers: Vec<Peer>,
}

/// A join reply: who answers, and the peers it knew.
#[derive(Clone, Debug, PartialEq, Eq)]
pub struct Pull {
    pub from: Option<Peer>,
    pub peers: Vec<Peer>,
}

} // verus!
