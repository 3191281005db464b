use bittorrent_peer_proto::{prepend, Cancel, Error, Have, Piece, Port, Request};

#[test]
fn have_decodes_four_bytes() {
    let h = Have::try_from_bytes(&[0, 0, 0, 5]).unwrap();
    assert_eq!(h, Have { piece_index: 5 });
}

#[test]
fn have_rejects_three_bytes() {
    assert!(matches!(Have::try_from_bytes(&[0, 0, 5]), Err(Error::InvalidLength)));
}

#[test]
fn have_rejects_five_bytes() {
    assert!(matches!(Have::try_from_bytes(&[0, 0, 0, 0, 5]), Err(Error::InvalidLength)));
}

#[test]
fn have_rejects_empty() {
    assert!(matches!(Have::try_from_bytes(&[]), Err(Error::InvalidLength)));
}

#[test]
fn have_encodes_big_endian() {
    assert_eq!(Have { piece_index: 0x01020304 }.bytes(), [1, 2, 3, 4]);
}

#[test]
fn have_round_trip() {
    for v in [0u32, 1, 255, 256, 0xDEADBEEF, u32::MAX] {
        let h = Have { piece_index: v };
        assert_eq!(Have::try_from_bytes(&h.bytes()).unwrap(), h);
    }
}

#[test]
fn port_decodes_two_bytes() {
    let p = Port::try_from_bytes(&[0x1A, 0xE1]).unwrap();
    assert_eq!(p, Port { listen_port: 6881 });
}

#[test]
fn port_rejects_other_lengths() {
    assert!(matches!(Port::try_from_bytes(&[0x1A]), Err(Error::InvalidLength)));
    assert!(matches!(Port::try_from_bytes(&[0x1A, 0xE1, 0]), Err(Error::InvalidLength)));
}

#[test]
fn port_round_trip() {
    for v in [0u16, 1, 6881, u16::MAX] {
        let p = Port { listen_port: v };
        assert_eq!(p.bytes(), v.to_be_bytes());
        assert_eq!(Port::try_from_bytes(&p.bytes()).unwrap(), p);
    }
}

#[test]
fn request_decodes_three_fields() {
    let raw = [0, 0, 0, 1, 0, 0, 0x40, 0, 0, 0, 0x40, 0];
    let r = Request::try_from_bytes(&raw).unwrap();
    assert_eq!(r, Request::new(1, 0x4000, 0x4000));
    assert_eq!(r.bytes(), raw);
}

#[test]
fn request_rejects_other_lengths() {
    assert!(matches!(Request::try_from_bytes(&[0; 11]), Err(Error::InvalidLength)));
    assert!(matches!(Request::try_from_bytes(&[0; 13]), Err(Error::InvalidLength)));
}

#[test]
fn request_round_trip() {
    let r = Request::new(7, 0xABCDEF01, u32::MAX);
    assert_eq!(Request::try_from_bytes(&r.bytes()).unwrap(), r);
}

#[test]
fn cancel_round_trip() {
    let raw = [0xFF, 0, 0, 2, 0, 1, 0, 0, 0, 0, 0x40, 0];
    let c = Cancel::try_from_bytes(&raw).unwrap();
    assert_eq!(c, Cancel { index: 0xFF000002, begin: 0x10000, len: 0x4000 });
    assert_eq!(Cancel::try_from_bytes(&c.bytes()).unwrap(), c);
}

#[test]
fn cancel_rejects_other_lengths() {
    assert!(matches!(Cancel::try_from_bytes(&[0; 4]), Err(Error::InvalidLength)));
    assert!(matches!(Cancel::try_from_bytes(&[0; 16]), Err(Error::InvalidLength)));
}

#[test]
fn piece_splits_header_and_block() {
    let p = Piece::try_from_bytes(&[0, 0, 0, 3, 0, 0, 1, 0, 9, 8, 7]).unwrap();
    assert_eq!(p.index, 3);
    assert_eq!(p.begin, 256);
    assert_eq!(p.block, vec![9, 8, 7]);
    assert_eq!(p.bytes(), vec![0, 0, 0, 3, 0, 0, 1, 0, 9, 8, 7]);
}

#[test]
fn piece_with_empty_block() {
    let p = Piece::try_from_bytes(&[0; 8]).unwrap();
    assert!(p.block.is_empty());
    assert_eq!(p.bytes(), vec![0; 8]);
}

#[test]
fn piece_rejects_short_header() {
    assert!(matches!(Piece::try_from_bytes(&[0; 7]), Err(Error::InvalidLength)));
}

#[test]
fn prepend_concatenates() {
    assert_eq!(prepend(&[1, 2], &[3]), vec![1, 2, 3]);
    assert_eq!(prepend(&[], &[]), Vec::<u8>::new());
}
