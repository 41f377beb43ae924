use clique::{Addr, Broadcast, NodeId, NodeState, Peer, PeerState, State};

fn addr(port: u16) -> Addr {
    Addr::V4 { ipv4: 0x7f00_0001, port }
}

#[test]
fn fresh_state_knows_nobody() {
    let state: State<()> = State::new();
    assert!(state.peers().is_empty());
    assert!(state.get_peer().is_none());
    assert_eq!(state.state(), NodeState::Disconnected);
    assert_eq!(state.broadcasts().len(), 0);
    assert_eq!(state.acks().len(), 0);
}

#[test]
fn peers_sync_adds_unknown_and_keeps_known() {
    let mut state: State<()> = State::new();
    let a = NodeId::from_u128(1);
    let b = NodeId::from_u128(2);
    let c = NodeId::from_u128(3);
    state.peers_sync(vec![(addr(1), a), (addr(2), b)]);
    state.peers_sync(vec![(addr(2), c), (addr(3), c), (addr(3), a)]);
    let peers = state.peers();
    assert_eq!(
        peers,
        vec![
            (addr(1), Peer::new_alive(a, addr(1))),
            (addr(2), Peer::new_alive(b, addr(2))),
            (addr(3), Peer::new_alive(c, addr(3))),
        ]
    );
    assert_eq!(state.broadcasts().len(), 0);
}

#[test]
fn peer_join_replaces_and_queues_broadcast() {
    let mut state: State<()> = State::new();
    let a = NodeId::from_u128(1);
    let b = NodeId::from_u128(2);
    state.peer_join(a, addr(1));
    state.peer_join(b, addr(2));
    state.peer_join(b, addr(1));
    assert_eq!(
        state.peers(),
        vec![(addr(1), Peer::new_alive(b, addr(1))), (addr(2), Peer::new_alive(b, addr(2)))]
    );
    let mut state = state;
    let mut queued = Vec::new();
    queued.push(Broadcast::Joined(a, addr(1)));
    queued.push(Broadcast::Joined(b, addr(2)));
    queued.push(Broadcast::Joined(b, addr(1)));
    assert_eq!(state.next_broadcasts(), queued);
}

#[test]
fn apply_broadcasts_learns_others_and_passes_on() {
    let mut state: State<()> = State::new();
    let me = state.id();
    let other = NodeId::from_u128(if me.as_u128() == 5 { 6 } else { 5 });
    state.apply_broadcasts(vec![
        Broadcast::Joined(other, addr(1)),
        Broadcast::Joined(other, addr(1)),
        Broadcast::Joined(me, addr(9)),
    ]);
    assert_eq!(state.peers(), vec![(addr(1), Peer::new_alive(other, addr(1)))]);
    assert_eq!(
        state.next_broadcasts(),
        vec![Broadcast::Joined(other, addr(1)), Broadcast::Joined(me, addr(9))]
    );
    // The node never adds itself.
    assert!(state.peers().iter().all(|(_, p)| p.id() != me));
}

#[test]
fn get_peer_picks_a_known_peer() {
    let mut state: State<()> = State::new();
    state.peers_sync(vec![(addr(1), NodeId::from_u128(1)), (addr(2), NodeId::from_u128(2))]);
    for _ in 0..20 {
        let p = state.get_peer().unwrap();
        assert!(p.addr() == addr(1) || p.addr() == addr(2));
        assert_eq!(p.state(), PeerState::Alive);
    }
}

#[test]
fn update_state_records_connection() {
    let mut state: State<()> = State::new();
    state.update_state(NodeState::Connected);
    assert_eq!(state.state(), NodeState::Connected);
}
