use clique::{Addr, Error, MsgCodec, NodeId, TowerError};

#[test]
fn node_id_text_round_trip() {
    let id = NodeId::from_u128(0x0123_4567_89ab_cdef_0123_4567_89ab_cdef);
    let text = id.to_string();
    assert_eq!(text, "01234567-89ab-cdef-0123-456789abcdef");
    assert_eq!(NodeId::parse_str(&text).unwrap(), id);
    assert_eq!(NodeId::parse_str("0123456789ABCDEF0123456789ABCDEF").unwrap(), id);
    assert!(NodeId::parse_str("0123").is_err());
    assert_eq!(id.as_u128(), 0x0123_4567_89ab_cdef_0123_4567_89ab_cdef);
}

#[test]
fn random_ids_differ() {
    assert_ne!(NodeId::new_v4(), NodeId::new_v4());
}

#[test]
fn error_descriptions() {
    assert_eq!(Error::Grpc("closed".to_string()).describe(), "Grpc Error: closed");
    let e = NodeId::parse_str("nope").unwrap_err();
    let d = Error::Uuid(e).describe();
    assert!(d.starts_with("Uuid error: "));
    assert!(d.len() > "Uuid error: ".len());
    let io = std::io::Error::new(std::io::ErrorKind::Other, "boom");
    assert_eq!(Error::from(io).describe(), "Io Error: boom");
}

#[test]
fn codec_frames_datagrams() {
    let mut codec = MsgCodec;
    assert_eq!(codec.decode(&[]), None);
    assert_eq!(codec.decode(&[1, 2, 3]), Some(vec![1, 2, 3]));
    let mut buf = vec![9];
    codec.encode(&[1, 2], &mut buf);
    assert_eq!(buf, vec![9, 1, 2]);
}

#[test]
fn tower_error_passes_values_and_hides_errors() {
    let mut t = TowerError::new(5u8);
    *t.future_mut() += 1;
    assert_eq!(*t.future_mut(), 6);
    assert_eq!(TowerError::<u8>::settle::<u8, String>(Ok(3)), Ok(3));
    assert_eq!(TowerError::<u8>::settle::<u8, String>(Err("x".to_string())), Err(()));
}

#[test]
fn address_port() {
    assert_eq!(Addr::V4 { ipv4: 1, port: 80 }.port(), 80);
    assert_eq!(Addr::V6 { ipv6: 1, port: 81, flowinfo: 0, scope_id: 2 }.port(), 81);
}


#[test]
fn random_ids_are_version_4() {
    for _ in 0..16 {
        let bits = NodeId::new_v4().as_u128();
        assert_eq!((bits >> 76) & 0xf, 4);
        assert_eq!((bits >> 62) & 0x3, 2);
    }
}
