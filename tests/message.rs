use bittorrent_peer_proto::{Error, Extended, Have, Message, Port, Request};

#[test]
fn message_dispatches_have() {
    let m = Message::try_from_bytes(4, &[0, 0, 0, 5]).unwrap();
    assert!(matches!(m, Message::Have(Have { piece_index: 5 })));
    assert_eq!(m.bytes(), vec![4, 0, 0, 0, 5]);
}

#[test]
fn message_dispatches_port() {
    let m = Message::try_from_bytes(9, &[0x1A, 0xE1]).unwrap();
    assert!(matches!(m, Message::Port(Port { listen_port: 6881 })));
    assert_eq!(m.bytes(), vec![9, 0x1A, 0xE1]);
}

#[test]
fn message_dispatches_request() {
    let raw = [0, 0, 0, 1, 0, 0, 0, 2, 0, 0, 0, 3];
    let m = Message::try_from_bytes(6, &raw).unwrap();
    assert!(matches!(m, Message::Request(r) if r == Request::new(1, 2, 3)));
}

#[test]
fn message_without_payload() {
    assert!(matches!(Message::try_from_bytes(0, &[]), Ok(Message::Choke)));
    assert!(matches!(Message::try_from_bytes(1, &[]), Ok(Message::Unchoke)));
    assert!(matches!(Message::try_from_bytes(2, &[]), Ok(Message::Interested)));
    assert!(matches!(Message::try_from_bytes(3, &[]), Ok(Message::NotInterested)));
    assert!(matches!(Message::try_from_bytes(0, &[1]), Err(Error::InvalidLength)));
    assert_eq!(Message::Interested.bytes(), vec![2]);
}

#[test]
fn message_bitfield_and_piece() {
    let m = Message::try_from_bytes(5, &[0xF0]).unwrap();
    match &m {
        Message::Bitfield(b) => assert_eq!(b.get(3), Some(true)),
        other => panic!("unexpected {:?}", other),
    }
    assert_eq!(m.bytes(), vec![5, 0xF0]);
    let p = Message::try_from_bytes(7, &[0, 0, 0, 1, 0, 0, 0, 0, 42]).unwrap();
    assert_eq!(p.bytes(), vec![7, 0, 0, 0, 1, 0, 0, 0, 0, 42]);
    assert!(matches!(Message::try_from_bytes(5, &[]), Err(Error::InvalidLength)));
}

#[test]
fn message_extended_unknown() {
    let m = Message::try_from_bytes(20, &[9, 9]).unwrap();
    assert!(matches!(&m, Message::Extended(Extended::Unknown(v)) if v == &vec![9, 9]));
    assert_eq!(m.bytes(), vec![20, 9, 9]);
}

#[test]
fn message_unknown_tag_is_refused() {
    assert!(matches!(Message::try_from_bytes(42, &[]), Err(Error::UnknownMessageType)));
}

#[test]
fn message_cancel_wrong_length() {
    assert!(matches!(Message::try_from_bytes(8, &[0; 3]), Err(Error::InvalidLength)));
}
