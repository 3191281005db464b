use bittorrent_peer_proto::{Bitfield, Error};

#[test]
fn new_rounds_up_to_whole_bytes() {
    assert_eq!(Bitfield::new(0).bytes(), Vec::<u8>::new());
    assert_eq!(Bitfield::new(1).bytes(), vec![0]);
    assert_eq!(Bitfield::new(8).bytes(), vec![0]);
    assert_eq!(Bitfield::new(9).bytes(), vec![0, 0]);
}

#[test]
fn new_reads_all_clear() {
    let b = Bitfield::new(13);
    for i in 0..13 {
        assert_eq!(b.get(i), Some(false));
    }
    assert_eq!(b.get(16), None);
}

#[test]
fn get_reads_most_significant_bit_first() {
    let b = Bitfield::try_from_bytes(&[0b1000_0001, 0b0100_0000]).unwrap();
    assert_eq!(b.get(0), Some(true));
    assert_eq!(b.get(1), Some(false));
    assert_eq!(b.get(7), Some(true));
    assert_eq!(b.get(9), Some(true));
    assert_eq!(b.get(15), Some(false));
    assert_eq!(b.get(16), None);
}

#[test]
fn try_from_bytes_rejects_empty() {
    assert!(matches!(Bitfield::try_from_bytes(&[]), Err(Error::InvalidLength)));
}

#[test]
fn set_then_get() {
    let mut b = Bitfield::try_from_bytes(&[0xFF, 0x00]).unwrap();
    b.set(3, false);
    b.set(10, true);
    assert_eq!(b.get(3), Some(false));
    assert_eq!(b.get(10), Some(true));
    assert_eq!(b.bytes(), vec![0b1110_1111, 0b0010_0000]);
    b.set(10, false);
    assert_eq!(b.bytes(), vec![0b1110_1111, 0]);
}

#[test]
fn set_out_of_range_is_ignored() {
    let mut b = Bitfield::new(8);
    b.set(8, true);
    b.set(1000, true);
    assert_eq!(b.bytes(), vec![0]);
    assert_eq!(b.get(8), None);
}
