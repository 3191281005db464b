use bittorrent_peer_proto::{Error, Extended, PeerAddr, UtPex, UT_PEX_EXTENDED_MSG_ID};

fn pex_payload(added: &[u8]) -> Vec<u8> {
    let mut v = format!("d5:added{}:", added.len()).into_bytes();
    v.extend_from_slice(added);
    v.push(b'e');
    v
}

const THREE_PEERS: [u8; 18] = [
    10, 0, 0, 1, 0x1A, 0xE1, 192, 168, 1, 2, 0, 80, 255, 254, 253, 252, 0xFF, 0xFF,
];

#[test]
fn ut_pex_three_peers_in_order() {
    let m = UtPex::try_from_bytes(&pex_payload(&THREE_PEERS)).unwrap();
    assert_eq!(
        m.added,
        vec![
            PeerAddr { ip: 0x0A000001, port: 6881 },
            PeerAddr { ip: 0xC0A80102, port: 80 },
            PeerAddr { ip: 0xFFFEFDFC, port: 65535 },
        ]
    );
}

#[test]
fn ut_pex_drops_partial_chunk() {
    for extra in 1..6 {
        let mut added = THREE_PEERS.to_vec();
        added.extend(std::iter::repeat(7u8).take(extra));
        let m = UtPex::try_from_bytes(&pex_payload(&added)).unwrap();
        assert_eq!(m.added.len(), 3);
        assert_eq!(m.added[2], PeerAddr { ip: 0xFFFEFDFC, port: 65535 });
    }
}

#[test]
fn ut_pex_ascii_address_bytes() {
    // bytes that are valid UTF-8 still form a compact list
    let m = UtPex::try_from_bytes(&pex_payload(&[127, 0, 0, 1, 0x1A, 0x61])).unwrap();
    assert_eq!(m.added, vec![PeerAddr { ip: 0x7F000001, port: 0x1A61 }]);
}

#[test]
fn ut_pex_without_added_is_empty() {
    let m = UtPex::try_from_bytes(b"d7:droppedi1ee").unwrap();
    assert!(m.added.is_empty());
}

#[test]
fn ut_pex_non_dictionary_is_refused() {
    assert!(matches!(UtPex::try_from_bytes(b"i5e"), Err(Error::EmptyExtendedPayload)));
}

#[test]
fn ut_pex_empty_payload_is_refused() {
    assert!(matches!(UtPex::try_from_bytes(b""), Err(Error::EmptyExtendedPayload)));
}

#[test]
fn ut_pex_malformed_bencode() {
    assert!(matches!(UtPex::try_from_bytes(b"d5:added"), Err(Error::MalformedBencode(_))));
}

#[test]
fn ut_pex_encodes_compact_list() {
    let m = UtPex { added: vec![PeerAddr { ip: 0x01020304, port: 6881 }] };
    assert_eq!(m.bytes(), b"d5:added6:\x01\x02\x03\x04\x1a\xe1e".to_vec());
    let back = UtPex::try_from_bytes(&m.bytes()).unwrap();
    assert_eq!(back.added, m.added);
}

#[test]
fn ut_pex_encodes_empty_list() {
    assert_eq!(UtPex { added: vec![] }.bytes(), b"d5:added0:e".to_vec());
}

#[test]
fn extended_handshake_id_zero() {
    let mut raw = vec![0u8];
    raw.extend_from_slice(b"d1:md6:ut_pexi1eee");
    let e = Extended::try_from_bytes(&raw).unwrap();
    assert!(matches!(e, Extended::Handshake(_)));
    assert_eq!(e.bytes(), raw);
}

#[test]
fn extended_handshake_malformed() {
    assert!(matches!(Extended::try_from_bytes(&[0, b'x']), Err(Error::MalformedBencode(_))));
}

#[test]
fn extended_handshake_without_element() {
    assert!(matches!(Extended::try_from_bytes(&[0]), Err(Error::EmptyExtendedPayload)));
}

#[test]
fn extended_pex_id() {
    let mut raw = vec![UT_PEX_EXTENDED_MSG_ID];
    raw.extend_from_slice(&pex_payload(&THREE_PEERS));
    let e = Extended::try_from_bytes(&raw).unwrap();
    match &e {
        Extended::UtPex(m) => assert_eq!(m.added.len(), 3),
        other => panic!("unexpected {:?}", other),
    }
    assert_eq!(e.bytes(), raw);
}

#[test]
fn extended_unknown_keeps_payload() {
    let raw = vec![7u8, 1, 2, 3];
    let e = Extended::try_from_bytes(&raw).unwrap();
    match &e {
        Extended::Unknown(v) => assert_eq!(v, &raw),
        other => panic!("unexpected {:?}", other),
    }
    assert_eq!(e.bytes(), raw);
}

#[test]
fn extended_empty_is_invalid_length() {
    assert!(matches!(Extended::try_from_bytes(&[]), Err(Error::InvalidLength)));
}

#[test]
fn handshake_advertises_ut_pex() {
    let mut expected = vec![0u8];
    expected.extend_from_slice(b"d1:md6:ut_pexi1eee");
    assert_eq!(Extended::handshake().bytes(), expected);
}
