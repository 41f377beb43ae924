//! Clique: the membership core of a SWIM based gossip agent.
//!
//! This crate holds the protocol's state and decisions: the peer table, the
//! queue of membership broadcasts, the pending acknowledgements of probes,
//! the failure detector, and the reactions to gossip messages and join
//! requests. Sockets, timers and tasks live with the caller.

pub mod acks;
pub mod addr;
pub mod broadcasts;
pub mod clock;
pub mod codec;
pub mod error;
pub mod failure;
pub mod handlers;
pub mod id;
pub mod node;
pub mod peer;
pub mod proto;
pub mod rpc;
pub mod server;
pub mod state;
pub mod table;

pub use crate::acks::{AckHandler, Acks, SeqNum};
pub use crate::addr::Addr;
pub use crate::broadcasts::{Broadcast, Broadcasts, LimitedBroadcast, TRANSMIT_LIMIT};
pub use crate::codec::{Msg, MsgCodec};
pub use crate::error::{Error, Result};
pub use crate::failure::Failure;
pub use crate::handlers::PingHandler;
pub use crate::id::NodeId;
pub use crate::node::{handles, probe, process_message, Reaction};
pub use crate::peer::{Peer, PeerState};
pub use crate::rpc::{apply_join_reply, join_request, try_apply_join_reply, MemberServer};
pub use crate::server::TowerError;
pub use crate::state::{NodeState, State};
