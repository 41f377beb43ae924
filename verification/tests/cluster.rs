use clique::{
    apply_join_reply, join_request, probe, process_message, Addr, MemberServer, Reaction, State,
};

fn addr(port: u16) -> Addr {
    Addr::V4 { ipv4: 0x7f00_0001, port }
}

/// Node `joiner` at `joiner_addr` joins through `server` at `server_addr`.
fn join_through(joiner: &mut State<u8>, joiner_addr: Addr, server: &mut State<u8>, server_addr: Addr) {
    let push = join_request(joiner, joiner_addr);
    let pull = MemberServer::<()>::join(push, server_addr, server).unwrap();
    apply_join_reply(joiner, pull);
}

#[test]
fn join_is_mutual() {
    let mut a: State<u8> = State::new();
    let mut b: State<u8> = State::new();
    join_through(&mut b, addr(2), &mut a, addr(1));
    assert_eq!(a.peers().len(), 1);
    assert_eq!(b.peers().len(), 1);
    assert_eq!(a.peers()[0].1.id(), b.id());
    assert_eq!(b.peers()[0].1.id(), a.id());
}

#[test]
fn join_3_node() {
    let mut a: State<u8> = State::new();
    let mut b: State<u8> = State::new();
    let mut c: State<u8> = State::new();
    join_through(&mut b, addr(2), &mut a, addr(1));
    assert_eq!(b.peers().len(), 1);
    join_through(&mut c, addr(3), &mut a, addr(1));

    // A gossips to B; the ping carries the news of C's join.
    let target = a.peers().into_iter().find(|(k, _)| *k == addr(2)).unwrap().1;
    let (ping, to) = probe(&mut a, &target, 0);
    assert_eq!(to, addr(2));
    match process_message(&mut b, ping, addr(1)) {
        Reaction::Reply(ack, back) => {
            assert_eq!(back, addr(1));
            match process_message(&mut a, ack, addr(2)) {
                Reaction::Acknowledged(Some(h)) => assert_eq!(h.into_signal(), 0),
                _ => panic!("A's probe is acknowledged"),
            }
        }
        Reaction::Acknowledged(_) => panic!("a ping is answered"),
    }

    assert_eq!(b.peers().len(), 2);
    assert!(b.peers().iter().any(|(k, p)| *k == addr(3) && p.id() == c.id()));
}
