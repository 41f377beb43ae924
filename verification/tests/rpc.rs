use clique::proto::{Peer as PeerRecord, Pull, Push};
use clique::{
    apply_join_reply, join_request, try_apply_join_reply, Addr, Broadcast, Error, MemberServer,
    NodeId, NodeState, Peer, State,
};

fn addr(port: u16) -> Addr {
    Addr::V4 { ipv4: 0x7f00_0001, port }
}

#[test]
fn join() {
    let mut state: State<()> = State::new();
    let from = PeerRecord { id: NodeId::new_v4().to_string(), address: addr(1234) };
    let request = Push { from: Some(from.clone()), peers: vec![from.clone()] };

    let response = MemberServer::<()>::join(request, addr(1234), &mut state).unwrap();
    assert!(response.peers.is_empty());
}

#[test]
fn join_names_server_and_lists_known_peers() {
    let mut state: State<()> = State::new();
    let known = NodeId::from_u128(0x1234);
    state.peers_sync(vec![(addr(2), known)]);
    let joiner = NodeId::from_u128(0xabcd);
    let request = Push {
        from: Some(PeerRecord { id: joiner.to_string(), address: addr(3) }),
        peers: vec![],
    };
    let server = MemberServer::new(addr(1), ());
    let pull = MemberServer::<()>::join(request, server.addr(), &mut state).unwrap();
    assert_eq!(
        pull.from,
        Some(PeerRecord { id: state.id().to_string(), address: addr(1) })
    );
    assert_eq!(
        pull.peers,
        vec![PeerRecord { id: "00000000-0000-0000-0000-000000001234".to_string(), address: addr(2) }]
    );
    assert_eq!(
        state.peers(),
        vec![(addr(2), Peer::new_alive(known, addr(2))), (addr(3), Peer::new_alive(joiner, addr(3)))]
    );
    assert_eq!(state.next_broadcasts(), vec![Broadcast::Joined(joiner, addr(3))]);
}

#[test]
fn join_with_bad_identity_is_refused() {
    let mut state: State<()> = State::new();
    let request = Push {
        from: Some(PeerRecord { id: "not a uuid".to_string(), address: addr(3) }),
        peers: vec![],
    };
    match MemberServer::<()>::join(request, addr(1), &mut state) {
        Err(Error::Uuid(_)) => {}
        other => panic!("expected a uuid error, got {:?}", other),
    }
    assert!(state.peers().is_empty());
    assert_eq!(state.broadcasts().len(), 0);
}

#[test]
fn join_request_names_self() {
    let state: State<()> = State::new();
    let push = join_request(&state, addr(8));
    let me = PeerRecord { id: state.id().to_string(), address: addr(8) };
    assert_eq!(push.from, Some(me.clone()));
    assert_eq!(push.peers, vec![me]);
}

#[test]
fn client_learns_server_and_its_peers() {
    let mut server: State<()> = State::new();
    server.peers_sync(vec![(addr(2), NodeId::from_u128(2))]);
    let mut client: State<()> = State::new();
    let push = join_request(&client, addr(3));
    let pull = MemberServer::<()>::join(push, addr(1), &mut server).unwrap();
    apply_join_reply(&mut client, pull);
    assert_eq!(
        client.peers(),
        vec![
            (addr(2), Peer::new_alive(NodeId::from_u128(2), addr(2))),
            (addr(1), Peer::new_alive(server.id(), addr(1))),
        ]
    );
    assert_eq!(client.state(), NodeState::Connected);
    assert_eq!(server.peers().len(), 2);
}

#[test]
fn unreadable_reply_is_left_alone() {
    let mut client: State<()> = State::new();
    let pull = Pull {
        from: Some(PeerRecord { id: NodeId::from_u128(1).to_string(), address: addr(1) }),
        peers: vec![PeerRecord { id: "xyz".to_string(), address: addr(2) }],
    };
    assert!(!try_apply_join_reply(&mut client, pull));
    assert!(client.peers().is_empty());
    assert_eq!(client.state(), NodeState::Disconnected);

    let pull = Pull { from: None, peers: vec![] };
    assert!(!try_apply_join_reply(&mut client, pull));

    let pull = Pull {
        from: Some(PeerRecord { id: NodeId::from_u128(1).to_string(), address: addr(1) }),
        peers: vec![],
    };
    assert!(try_apply_join_reply(&mut client, pull));
    assert_eq!(client.peers(), vec![(addr(1), Peer::new_alive(NodeId::from_u128(1), addr(1)))]);
}
