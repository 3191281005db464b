//! The extension protocol: its envelope and the peer exchange message.

use vstd::prelude::*;

use lava_torrent::bencode::BencodeElem;

use crate::bencode::{
    ascii_bytes, bencode_bytes_entry, bencode_element_count, bencode_encoding,
    bencode_first_bytes_entry, bencode_first_encoding, bencode_first_is_dict, bencode_is_dict,
    byte_string_encoding, bytes_elem, bytes_entry, decode_bencode, encode_bencode,
    integer_elem, integer_encoding, is_dict, single_entry_elem, single_entry_encoding,
};
use crate::error::Error;
use crate::wire::{
    be_u16, be_u32, copy_range, lemma_u16_be_round_trip, lemma_u32_be_round_trip, prepend, push_u16,
    push_u32, read_u16, read_u32, u16_be, u32_be,
};

verus! {

/// The extension message ID under which this side registers peer exchange.
pub const UT_PEX_EXTENDED_MSG_ID: u8 = 1;

/// An IPv4 peer: its address as a big-endian integer, and its port.
#[derive(Debug, Clone, Copy, PartialEq, Eq, Structural)]
pub struct PeerAddr {
    pub ip: u32,
    pub port: u16,
}

/// The `i`-th six-byte chunk of a compact peer list.
pub open spec fn compact_peer(b: Seq<u8>, i: int) -> PeerAddr {
    PeerAddr {
        ip: be_u32(b.subrange(6 * i, 6 * i + 4)) as u32,
        port: be_u16(b.subrange(6 * i + 4, 6 * i + 6)) as u16,
    }
}

/// The peers of a compact list, one per whole six-byte chunk; a shorter tail is dropped.
pub open spec fn compact_peers(b: Seq<u8>) -> Seq<PeerAddr> {
    Seq::new(b.len() / 6, |i: int| compact_peer(b, i))
}

/// The compact form of a peer list: four address bytes and two port bytes each.
pub open spec fn compact_bytes(peers: Seq<PeerAddr>) -> Seq<u8>
    decreases peers.len(),
{
    if peers.len() == 0 {
        Seq::empty()
    } else {
        compact_bytes(peers.drop_last()) + u32_be(peers.last().ip) + u16_be(peers.last().port)
    }
}

/// The byte string under `"added"` in a dictionary element; empty when there is none.
pub open spec fn added_bytes(e: BencodeElem) -> Seq<u8> {
    match bencode_bytes_entry(e, "added"@) {
        Some(b) => b,
        None => Seq::empty(),
    }
}

/// What decoding a peer exchange message from the element `e` gives.
pub open spec fn pex_from_elem(e: BencodeElem, r: Result<UtPex, Error>) -> bool {
    if bencode_is_dict(e) {
        r is Ok && r->Ok_0.added@ == compact_peers(added_bytes(e))
    } else {
        r is Err && r->Err_0 is EmptyExtendedPayload
    }
}

/// What decoding a peer exchange message from `raw` gives.
pub open spec fn pex_from_bytes(raw: Seq<u8>, r: Result<UtPex, Error>) -> bool {
    match bencode_element_count(raw) {
        None => r is Err && r->Err_0 is MalformedBencode,
        Some(n) => if n == 0 {
            r is Err && r->Err_0 is EmptyExtendedPayload
        } else if bencode_first_is_dict(raw) {
            r is Ok && r->Ok_0.added@ == compact_peers(
                match bencode_first_bytes_entry(raw, "added"@) {
                    Some(b) => b,
                    None => Seq::empty(),
                },
            )
        } else {
            r is Err && r->Err_0 is EmptyExtendedPayload
        },
    }
}

/// What decoding an extended payload gives, by its leading ID: a handshake
/// for `0`, peer exchange for the registered ID, the payload as it came for
/// any other, and `InvalidLength` when there is no ID.
pub open spec fn extended_decoded(raw: Seq<u8>, r: Result<Extended, Error>) -> bool {
    if raw.len() == 0 {
        r is Err && r->Err_0 is InvalidLength
    } else if raw[0] == 0 {
        match bencode_element_count(raw.drop_first()) {
            None => r is Err && r->Err_0 is MalformedBencode,
            Some(n) => if n == 0 {
                r is Err && r->Err_0 is EmptyExtendedPayload
            } else {
                r is Ok && r->Ok_0 is Handshake && bencode_encoding(r->Ok_0->Handshake_0)
                    == bencode_first_encoding(raw.drop_first())
            },
        }
    } else if raw[0] == UT_PEX_EXTENDED_MSG_ID {
        match r {
            Ok(Extended::UtPex(m)) => pex_from_bytes(raw.drop_first(), Ok(m)),
            Ok(_) => false,
            Err(e) => pex_from_bytes(raw.drop_first(), Err(e)),
        }
    } else {
        match r {
            Ok(Extended::Unknown(v)) => v@ == raw,
            _ => false,
        }
    }
}

/// The payload of an extended message: its ID, then its body; an unknown
/// message as it came.
pub open spec fn extended_bytes(e: Extended) -> Seq<u8> {
    match e {
        Extended::Handshake(hs) => seq![0u8] + bencode_encoding(hs),
        Extended::UtPex(m) => seq![UT_PEX_EXTENDED_MSG_ID] + pex_encoding(m.added@),
        Extended::Unknown(v) => v@,
    }
}

/// The bencoded peer exchange message `{"added": <compact list>}`.
pub open spec fn pex_encoding(added: Seq<PeerAddr>) -> Seq<u8> {
    single_entry_encoding(seq![97u8, 100, 100, 101, 100], byte_string_encoding(compact_bytes(added)))
}

/// The bencoded handshake `{"m": {"ut_pex": id}}`.
pub open spec fn handshake_encoding(id: u8) -> Seq<u8> {
    single_entry_encoding(
        seq![109u8],
        single_entry_encoding(seq![117u8, 116, 95, 112, 101, 120], integer_encoding(id as nat)),
    )
}

/// Decodes a compact peer list, one peer per whole six-byte chunk.
pub fn compact_peer_list(b: &[u8]) -> (r: Vec<PeerAddr>)
    ensures
        r@ == compact_peers(b@),
{
    let mut r: Vec<PeerAddr> = Vec::new();
    let mut i: usize = 0;
    while b.len() - i >= 6
        invariant
            i % 6 == 0,
            i <= b@.len(),
            r@.len() == i / 6,
            forall|j: int| 0 <= j < r@.len() ==> r@[j] == compact_peer(b@, j),
        decreases b@.len() - i,
    {
        let ip = read_u32(b, i);
        let port = read_u16(b, i + 4);
        r.push(PeerAddr { ip, port });
        i = i + 6;
    }
    assert(r@ =~= compact_peers(b@));
    r
}

/// Appends the compact form of `peers` to `out`.
fn push_compact(out: &mut Vec<u8>, peers: &Vec<PeerAddr>)
    ensures
        final(out)@ == old(out)@ + compact_bytes(peers@),
{
    let mut i: usize = 0;
    while i < peers.len()
        invariant
            i <= peers@.len(),
            out@ == old(out)@ + compact_bytes(peers@.subrange(0, i as int)),
        decreases peers@.len() - i,
    {
        let p = peers[i];
        push_u32(out, p.ip);
        push_u16(out, p.port);
        let ghost done = peers@.subrange(0, i + 1);
        assert(done.drop_last() =~= peers@.subrange(0, i as int));
        i = i + 1;
    }
    assert(peers@.subrange(0, peers@.len() as int) =~= peers@);
}

/// A peer exchange message: the peers that the sender has connected to.
#[derive(Debug)]
pub struct UtPex {
    pub added: Vec<PeerAddr>,
}

impl UtPex {
    /// Reads the message from a decoded element, which must be a dictionary;
    /// its `"added"` byte string, when present, is the compact peer list.
    pub fn try_from_elem(e: &BencodeElem) -> (r: Result<UtPex, Error>)
        ensures
            pex_from_elem(*e, r),
    {
        if !is_dict(e) {
            return Err(Error::EmptyExtendedPayload);
        }
        let added = match bytes_entry(e, "added") {
            Some(b) => compact_peer_list(b.as_slice()),
            None => {
                let r: Vec<PeerAddr> = Vec::new();
                assert(r@ =~= compact_peers(Seq::empty()));
                r
            },
        };
        Ok(UtPex { added })
    }

    /// Decodes a bencoded peer exchange message.
    pub fn try_from_bytes(raw: &[u8]) -> (r: Result<UtPex, Error>)
        ensures
            pex_from_bytes(raw@, r),
    {
        let elems = match decode_bencode(raw) {
            Ok(v) => v,
            Err(e) => return Err(Error::MalformedBencode(e)),
        };
        if elems.len() == 0 {
            return Err(Error::EmptyExtendedPayload);
        }
        let r = UtPex::try_from_elem(&elems[0]);
        assert(pex_from_elem(elems@[0], r));
        r
    }

    /// The bencoded message `{"added": <compact list>}`.
    pub fn bytes(&self) -> (r: Vec<u8>)
        ensures
            r@ == pex_encoding(self.added@),
    {
        let mut compact: Vec<u8> = Vec::new();
        push_compact(&mut compact, &self.added);
        assert(compact@ =~= compact_bytes(self.added@));
        proof {
            reveal_strlit("added");
        }
        let e = single_entry_elem("added", bytes_elem(compact));
        assert(ascii_bytes("added"@) =~= seq![97u8, 100, 100, 101, 100]);
        encode_bencode(&e)
    }
}

/// A message of the extension protocol, told apart by its one-byte ID.
#[derive(Debug)]
pub enum Extended {
    /// ID `0`: the bencoded handshake that lists the extensions a peer supports.
    Handshake(BencodeElem),
    /// The registered peer exchange ID.
    UtPex(UtPex),
    /// Any other ID: the whole payload, ID included, kept as it came.
    Unknown(Vec<u8>),
}

impl Extended {
    /// Decodes an extended payload by its leading ID.
    pub fn try_from_bytes(raw: &[u8]) -> (r: Result<Extended, Error>)
        ensures
            extended_decoded(raw@, r),
    {
        if raw.len() == 0 {
            return Err(Error::InvalidLength);
        }
        let id = raw[0];
        if id == 0 {
            let body = copy_range(raw, 1, raw.len());
            assert(body@ =~= raw@.drop_first());
            let mut elems = match decode_bencode(body.as_slice()) {
                Ok(v) => v,
                Err(e) => return Err(Error::MalformedBencode(e)),
            };
            if elems.len() == 0 {
                return Err(Error::EmptyExtendedPayload);
            }
            Ok(Extended::Handshake(elems.swap_remove(0)))
        } else if id == UT_PEX_EXTENDED_MSG_ID {
            let body = copy_range(raw, 1, raw.len());
            assert(body@ =~= raw@.drop_first());
            match UtPex::try_from_bytes(body.as_slice()) {
                Ok(m) => Ok(Extended::UtPex(m)),
                Err(e) => Err(e),
            }
        } else {
            let v = copy_range(raw, 0, raw.len());
            assert(v@ =~= raw@);
            Ok(Extended::Unknown(v))
        }
    }

    /// The payload of this message: its ID, then its body; an unknown message
    /// is given back as it came.
    pub fn bytes(&self) -> (r: Vec<u8>)
        ensures
            r@ == extended_bytes(*self),
    {
        match self {
            Extended::Handshake(hs) => {
                let body = encode_bencode(hs);
                prepend(&[0u8], body.as_slice())
            },
            Extended::UtPex(m) => {
                let body = m.bytes();
                prepend(&[UT_PEX_EXTENDED_MSG_ID], body.as_slice())
            },
            Extended::Unknown(v) => copy_range(v.as_slice(), 0, v.len()),
        }
    }

    /// The handshake by which this side announces peer exchange under its registered ID.
    pub fn handshake() -> (r: Extended)
        ensures
            match r {
                Extended::Handshake(hs) => bencode_encoding(hs) == handshake_encoding(
                    UT_PEX_EXTENDED_MSG_ID,
                ),
                _ => false,
            },
    {
        proof {
            reveal_strlit("ut_pex");
            reveal_strlit("m");
        }
        let inner = single_entry_elem("ut_pex", integer_elem(UT_PEX_EXTENDED_MSG_ID));
        let m = single_entry_elem("m", inner);
        assert(ascii_bytes("ut_pex"@) =~= seq![117u8, 116, 95, 112, 101, 120]);
        assert(ascii_bytes("m"@) =~= seq![109u8]);
        Extended::Handshake(m)
    }
}

/// A tail shorter than one chunk after whole chunks adds no peer: the list
/// holds the same peers, in the same order, as without it.
pub proof fn lemma_partial_chunk_dropped(chunks: Seq<u8>, tail: Seq<u8>)
    requires
        chunks.len() % 6 == 0,
        tail.len() < 6,
    ensures
        compact_peers(chunks + tail) == compact_peers(chunks),
{
    let b = chunks + tail;
    assert(b.len() / 6 == chunks.len() / 6);
    assert forall|i: int| 0 <= i < chunks.len() / 6 implies compact_peer(b, i) == compact_peer(
        chunks,
        i,
    ) by {
        assert(6 * i + 6 <= chunks.len());
        assert(b.subrange(6 * i, 6 * i + 4) =~= chunks.subrange(6 * i, 6 * i + 4));
        assert(b.subrange(6 * i + 4, 6 * i + 6) =~= chunks.subrange(6 * i + 4, 6 * i + 6));
    }
    assert(compact_peers(b) =~= compact_peers(chunks));
}

/// The compact form of a peer list decodes back to the same list.
pub proof fn lemma_compact_round_trip(peers: Seq<PeerAddr>)
    ensures
        compact_bytes(peers).len() == 6 * peers.len(),
        compact_peers(compact_bytes(peers)) == peers,
    decreases peers.len(),
{
    if peers.len() > 0 {
        let init = peers.drop_last();
        let p = peers.last();
        lemma_compact_round_trip(init);
        lemma_u32_be_round_trip(p.ip);
        lemma_u16_be_round_trip(p.port);
        let prefix = compact_bytes(init);
        let b = compact_bytes(peers);
        let n = init.len() as int;
        assert(b.len() == 6 * peers.len());
        assert forall|i: int| 0 <= i < peers.len() implies compact_peer(b, i) == peers[i] by {
            if i < n {
                assert(b.subrange(6 * i, 6 * i + 4) =~= prefix.subrange(6 * i, 6 * i + 4));
                assert(b.subrange(6 * i + 4, 6 * i + 6) =~= prefix.subrange(6 * i + 4, 6 * i + 6));
                assert(compact_peer(prefix, i) == compact_peers(prefix)[i]);
            } else {
                assert(b.subrange(6 * i, 6 * i + 4) =~= u32_be(p.ip));
                assert(b.subrange(6 * i + 4, 6 * i + 6) =~= u16_be(p.port));
            }
        }
        assert(compact_peers(b) =~= peers);
    } else {
        assert(compact_peers(compact_bytes(peers)) =~= peers);
    }
}

} // verus!
