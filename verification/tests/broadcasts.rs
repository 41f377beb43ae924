use clique::{Addr, Broadcast, Broadcasts, LimitedBroadcast, NodeId};

fn local(port: u16) -> Addr {
    Addr::V4 { ipv4: 0x7f00_0001, port }
}

#[test]
fn basic() {
    let broadcast = Broadcast::Joined(NodeId::new_v4(), local(1234));

    let mut broadcasts = Broadcasts::default();
    broadcasts.add(broadcast.clone());

    let broadcast_to_send = broadcasts.get().pop();
    assert_eq!(broadcast_to_send, Some(broadcast));
}

#[test]
fn get_hands_out_every_broadcast_in_order_and_keeps_them() {
    let a = Broadcast::Joined(NodeId::from_u128(1), local(1));
    let b = Broadcast::Joined(NodeId::from_u128(2), local(2));
    let c = Broadcast::Joined(NodeId::from_u128(3), local(3));
    let mut broadcasts = Broadcasts::new();
    broadcasts.add(a);
    broadcasts.add(b);
    broadcasts.add(c);
    assert_eq!(broadcasts.get(), vec![a, b, c]);
    assert_eq!(broadcasts.len(), 3);
    assert_eq!(broadcasts.get(), vec![a, b, c]);
}

#[test]
fn get_on_empty_queue() {
    let mut broadcasts = Broadcasts::new();
    assert_eq!(broadcasts.get(), vec![]);
    assert_eq!(broadcasts.len(), 0);
}

#[test]
fn limited_broadcast_starts_unsent() {
    let a = Broadcast::Joined(NodeId::from_u128(9), local(9));
    let lb = LimitedBroadcast::new(a);
    assert_eq!(lb.transmits, 0);
    assert_eq!(Broadcast::from(lb), a);
}
