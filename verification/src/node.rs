use vstd::prelude::*;

use crate::acks::{probe_recorded, seq_after, AckHandler};
use crate::addr::Addr;
use crate::codec::Msg;
use crate::peer::Peer;
use crate::state::{applied, State};

verus! {

/// What a node does about a gossip message it has received.
#[derive(Debug)]
pub enum Reaction<H> {
    /// Send this message to this address.
    Reply(Msg, Addr),
    /// An acknowledgement arrived: fire the signal of the handler that
    /// waited for it, if one did.
    Acknowledged(Option<AckHandler<H>>),
}

/// The messages that a node knows how to take: pings and acknowledgements.
pub open spec fn handled(msg: Msg) -> bool {
    msg is Ping || msg is Ack
}

/// Whether a node knows how to take the message (see `handled`).
pub fn handles(msg: &Msg) -> (b: bool)
    ensures
        b == handled(*msg),
{
    match msg {
        Msg::Ping(..) => true,
        Msg::Ack(..) => true,
        _ => false,
    }
}

/// Takes a gossip message received from `from`.
///
/// A ping: the broadcasts it carries are applied, and the reply is an
/// acknowledgement with the same sequence number, carrying every queued
/// broadcast, sent back to `from`.
///
/// An acknowledgement: the handler waiting for its sequence number is taken
/// out, to be fired, and the broadcasts it carries are applied.
pub fn process_message<H>(state: &mut State<H>, msg: Msg, from: Addr) -> (r: Reaction<H>)
    requires
        old(state).wf(),
        handled(msg),
    ensures
        final(state).wf(),
        final(state).spec_id() == old(state).spec_id(),
        final(state).node_state() == old(state).node_state(),
        match msg {
            Msg::Ping(seq, carried) => {
                let after = applied(
                    old(state).spec_id(),
                    old(state).entries(),
                    old(state).queued(),
                    carried@,
                );
                &&& final(state).entries() == after.0
                &&& final(state).queued() == after.1
                &&& final(state).spec_acks() == old(state).spec_acks()
                &&& r matches Reaction::Reply(Msg::Ack(s, sent), to) && s == seq && sent@
                    == after.1 && to == from
            },
            Msg::Ack(seq, carried) => {
                let after = applied(
                    old(state).spec_id(),
                    old(state).entries(),
                    old(state).queued(),
                    carried@,
                );
                &&& final(state).entries() == after.0
                &&& final(state).queued() == after.1
                &&& final(state).spec_acks().pending() == old(state).spec_acks().pending().remove(seq)
                &&& final(state).spec_acks().spec_seq_num() == old(state).spec_acks().spec_seq_num()
                &&& final(state).spec_acks().spec_timeout() == old(state).spec_acks().spec_timeout()
                &&& r matches Reaction::Acknowledged(h) && match h {
                    Some(h) => old(state).spec_acks().pending().contains_key(seq) && h == old(
                        state,
                    ).spec_acks().pending()[seq],
                    None => !old(state).spec_acks().pending().contains_key(seq),
                }
            },
            _ => false,
        },
{
    match msg {
        Msg::Ping(seq, broadcasts) => {
            state.apply_broadcasts(broadcasts);
            let queued = state.next_broadcasts();
            Reaction::Reply(Msg::Ack(seq, queued), from)
        },
        Msg::Ack(seq, broadcasts) => {
            let handler = state.handle_ack(seq);
            state.apply_broadcasts(broadcasts);
            Reaction::Acknowledged(handler)
        },
        Msg::PingReq(..) => {
            assert(false);
            Reaction::Acknowledged(None)
        },
        Msg::NAck(..) => {
            assert(false);
            Reaction::Acknowledged(None)
        },
    }
}

/// One round of gossip towards `target`: a ping that carries every queued
/// broadcast, under a new sequence number whose acknowledgement will fire
/// `signal`, addressed to the target.
pub fn probe<H>(state: &mut State<H>, target: &Peer, signal: H) -> (r: (Msg, Addr))
    requires
        old(state).wf(),
    ensures
        final(state).wf(),
        r.1 == target.spec_addr(),
        r.0 matches Msg::Ping(s, sent) && s == old(state).spec_acks().spec_seq_num() && sent@
            == old(state).queued(),
        final(state).spec_acks().spec_seq_num() == seq_after(old(state).spec_acks().spec_seq_num()),
        final(state).spec_acks().spec_timeout() == old(state).spec_acks().spec_timeout(),
        probe_recorded(
            old(state).spec_acks().pending(),
            final(state).spec_acks().pending(),
            old(state).spec_acks().spec_seq_num(),
            target.spec_addr(),
            signal,
        ),
        final(state).entries() == old(state).entries(),
        final(state).queued() == old(state).queued(),
        final(state).spec_id() == old(state).spec_id(),
        final(state).node_state() == old(state).node_state(),
{
    let broadcasts = state.next_broadcasts();
    let addr = target.addr();
    let seq = state.add_ack(addr, signal);
    (Msg::Ping(seq, broadcasts), addr)
}

} // verus!
