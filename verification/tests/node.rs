use clique::{
    handles, probe, process_message, Addr, Broadcast, Msg, NodeId, Peer, Reaction, State,
};

fn addr(port: u16) -> Addr {
    Addr::V4 { ipv4: 0x7f00_0001, port }
}

#[test]
fn ping_is_acknowledged_to_its_sender() {
    let mut state: State<&str> = State::new();
    let other = NodeId::from_u128(if state.id().as_u128() == 1 { 2 } else { 1 });
    let joined = Broadcast::Joined(other, addr(7));
    let reaction = process_message(&mut state, Msg::Ping(42, vec![joined]), addr(3));
    match reaction {
        Reaction::Reply(msg, to) => {
            assert_eq!(msg, Msg::Ack(42, vec![joined]));
            assert_eq!(to, addr(3));
        }
        Reaction::Acknowledged(_) => panic!("a ping is answered"),
    }
    assert_eq!(state.peers(), vec![(addr(7), Peer::new_alive(other, addr(7)))]);
}

#[test]
fn probe_then_ack_fires_its_handler() {
    let mut state: State<&str> = State::new();
    let target = Peer::new_alive(NodeId::from_u128(1), addr(5));
    let (msg, to) = probe(&mut state, &target, "probe");
    assert_eq!(msg, Msg::Ping(0, vec![]));
    assert_eq!(to, addr(5));
    assert_eq!(state.acks().len(), 1);

    match process_message(&mut state, Msg::Ack(0, vec![]), addr(5)) {
        Reaction::Acknowledged(Some(h)) => {
            assert_eq!(h.addr(), addr(5));
            assert_eq!(h.into_signal(), "probe");
        }
        _ => panic!("the acknowledgement finds the probe"),
    }
    assert_eq!(state.acks().len(), 0);

    match process_message(&mut state, Msg::Ack(0, vec![]), addr(5)) {
        Reaction::Acknowledged(None) => {}
        _ => panic!("the probe was already answered"),
    }
}

#[test]
fn second_probe_gets_next_sequence_number() {
    let mut state: State<u8> = State::new();
    let target = Peer::new_alive(NodeId::from_u128(1), addr(5));
    let _ = probe(&mut state, &target, 1);
    let (msg, _) = probe(&mut state, &target, 2);
    assert_eq!(msg, Msg::Ping(1, vec![]));
}

#[test]
fn only_pings_and_acks_are_handled() {
    assert!(handles(&Msg::Ping(0, vec![])));
    assert!(handles(&Msg::Ack(0, vec![])));
    assert!(!handles(&Msg::PingReq(0, vec![])));
    assert!(!handles(&Msg::NAck(0, vec![])));
}
