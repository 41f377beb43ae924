use clique::{Acks, Addr};
use std::time::Duration;

fn target(port: u16) -> Addr {
    Addr::V4 { ipv4: 0x7f00_0001, port }
}

#[test]
fn ack() {
    let mut acks: Acks<&str> = Acks::new(Duration::from_secs(1));

    let seq = acks.add(target(1), "fired");
    assert_eq!(seq, 0);

    let handler = acks.handle_ack(0).expect("the probe waits for its acknowledgement");
    assert_eq!(handler.addr(), target(1));
    assert_eq!(handler.into_signal(), "fired");
    assert_eq!(acks.len(), 0);
}

#[test]
fn no_ack() {
    let mut acks: Acks<&str> = Acks::new(Duration::from_secs(1));

    acks.add(target(1), "fired");

    // An acknowledgement for another probe leaves this one waiting.
    assert!(acks.handle_ack(7).is_none());
    assert_eq!(acks.len(), 1);
    assert!(acks.handle_ack(0).is_some());
    assert!(acks.handle_ack(0).is_none());
}

#[test]
fn sequence_numbers_start_at_zero_and_advance() {
    let mut acks: Acks<u8> = Acks::with_timeout_nanos(5);
    assert_eq!(acks.add_at(target(1), 1, 10), 0);
    assert_eq!(acks.add_at(target(2), 2, 11), 1);
    assert_eq!(acks.next_seq(), 3);
    assert_eq!(acks.add_at(target(3), 3, 12), 3);
    let h = acks.handle_ack(1).unwrap();
    assert_eq!(h.addr(), target(2));
    assert_eq!(h.sent_at(), 11);
    assert_eq!(h.into_signal(), 2);
    assert_eq!(acks.len(), 2);
}
