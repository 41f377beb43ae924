use clique::{Addr, Failure};
use std::time::Duration;

fn target() -> Addr {
    Addr::V4 { ipv4: 0x7f00_0001, port: 1234 }
}

#[test]
fn gather_empty_new() {
    let mut failure = Failure::new(Duration::from_millis(20));
    assert_eq!(failure.gather(), vec![]);
    assert_eq!(failure.len(), 0);
}

#[test]
fn gather_empty_with_one() {
    let mut failure = Failure::new(Duration::from_millis(20));

    failure.add(target());

    assert_eq!(failure.gather(), vec![]);
    assert_eq!(failure.len(), 1);
}

#[test]
fn gather_one() {
    // The probe is sent at time zero and the detector looks 100 ms later.
    let mut failure = Failure::with_timeout_nanos(20_000_000);

    let target = target();

    failure.add_at(target, 0);

    assert_eq!(failure.gather_at(100_000_000), vec![target.clone()]);
    assert_eq!(failure.len(), 0);
}

#[test]
fn sequence_numbers_start_at_one() {
    let mut failure = Failure::with_timeout_nanos(20_000_000);
    assert_eq!(failure.add_at(target(), 0), 1);
    assert_eq!(failure.add_at(target(), 0), 2);
    assert_eq!(failure.next_seq(), 3);
    assert_eq!(failure.add_at(target(), 0), 4);
}

#[test]
fn acknowledged_probe_is_never_suspected() {
    let mut failure = Failure::with_timeout_nanos(20);
    let seq = failure.add_at(target(), 0);
    failure.handle_ack(seq);
    assert_eq!(failure.len(), 0);
    assert_eq!(failure.gather_at(1_000), vec![]);
}

#[test]
fn timeout_is_strict() {
    let mut failure = Failure::with_timeout_nanos(20);
    failure.add_at(target(), 100);
    // Exactly the timeout has passed: not yet suspected.
    assert_eq!(failure.gather_at(120), vec![]);
    // A clock reading before the send counts as no time passed.
    assert_eq!(failure.gather_at(50), vec![]);
    assert_eq!(failure.gather_at(121), vec![target()]);
}

#[test]
fn gather_keeps_fresh_probes_and_twice_finds_nothing() {
    let a = Addr::V4 { ipv4: 1, port: 1 };
    let b = Addr::V4 { ipv4: 2, port: 2 };
    let c = Addr::V6 { ipv6: 1, port: 3, flowinfo: 0, scope_id: 0 };
    let mut failure = Failure::with_timeout_nanos(10);
    failure.add_at(a, 0);
    failure.add_at(b, 50);
    failure.add_at(c, 5);
    let mut suspects = failure.gather_at(30);
    suspects.sort_by_key(|s| format!("{:?}", s));
    let mut expected = vec![a, c];
    expected.sort_by_key(|s| format!("{:?}", s));
    assert_eq!(suspects, expected);
    assert_eq!(failure.len(), 1);
    assert_eq!(failure.gather_at(30), vec![]);
    assert_eq!(failure.len(), 1);
}

#[test]
fn timeout_is_read_from_the_duration() {
    let mut strict = Failure::new(Duration::from_nanos(0));
    strict.add_at(target(), 0);
    assert_eq!(strict.gather_at(1), vec![target()]);

    let mut lenient = Failure::new(Duration::from_nanos(5));
    lenient.add_at(target(), 0);
    assert_eq!(lenient.gather_at(5), vec![]);
    assert_eq!(lenient.gather_at(6), vec![target()]);
}

#[test]
fn gather_names_each_suspect_once() {
    let a = Addr::V4 { ipv4: 1, port: 1 };
    let b = Addr::V4 { ipv4: 2, port: 2 };
    let mut failure = Failure::with_timeout_nanos(10);
    failure.add_at(a, 0);
    failure.add_at(a, 0);
    failure.add_at(b, 0);
    failure.add_at(a, 5);
    let mut suspects = failure.gather_at(100);
    suspects.sort_by_key(|s| format!("{:?}", s));
    assert_eq!(suspects, vec![a, b]);
    assert_eq!(failure.len(), 0);
}
