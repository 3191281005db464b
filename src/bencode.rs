//! The bencoding that this crate relies on, from `lava_torrent`.

use vstd::prelude::*;

use lava_torrent::bencode::BencodeElem;
use lava_torrent::LavaTorrentError;

verus! {

#[verifier::external_type_specification]
#[verifier::external_body]
pub struct ExBencodeElem(BencodeElem);

#[verifier::external_type_specification]
#[verifier::external_body]
pub struct ExLavaTorrentError(LavaTorrentError);

/// The decimal digits of `n`, as ASCII bytes.
pub open spec fn decimal(n: nat) -> Seq<u8>
    decreases n,
{
    if n < 10 {
        seq![(48 + n) as u8]
    } else {
        decimal(n / 10) + seq![(48 + n % 10) as u8]
    }
}

/// The bytes of a string whose characters are all ASCII.
pub open spec fn ascii_bytes(s: Seq<char>) -> Seq<u8> {
    Seq::new(s.len(), |i: int| s[i] as u8)
}

pub open spec fn is_ascii(s: Seq<char>) -> bool {
    forall|i: int| 0 <= i < s.len() ==> (s[i] as u32) < 128
}

/// Bencoding of a byte string: its length in decimal, `:`, then the bytes.
pub open spec fn byte_string_encoding(b: Seq<u8>) -> Seq<u8> {
    decimal(b.len()) + seq![58u8] + b
}

/// Bencoding of a non-negative integer: `i`, its decimal digits, `e`.
pub open spec fn integer_encoding(n: nat) -> Seq<u8> {
    seq![105u8] + decimal(n) + seq![101u8]
}

/// Bencoding of a dictionary with the single entry `key` to an encoded value.
pub open spec fn single_entry_encoding(key: Seq<u8>, value: Seq<u8>) -> Seq<u8> {
    seq![100u8] + byte_string_encoding(key) + value + seq![101u8]
}

/// How many elements a buffer holds back to back, or `None` when it is malformed.
pub uninterp spec fn bencode_element_count(raw: Seq<u8>) -> Option<nat>;

/// Whether the first element that `raw` parses to is a dictionary.
pub uninterp spec fn bencode_first_is_dict(raw: Seq<u8>) -> bool;

/// The byte string under `key` in the first element that `raw` parses to, if it
/// is a dictionary that has one.
pub uninterp spec fn bencode_first_bytes_entry(raw: Seq<u8>, key: Seq<char>) -> Option<Seq<u8>>;

/// The bencoding of the first element that `raw` parses to.
pub uninterp spec fn bencode_first_encoding(raw: Seq<u8>) -> Seq<u8>;

/// Whether an element is a dictionary.
pub uninterp spec fn bencode_is_dict(e: BencodeElem) -> bool;

/// The byte string under `key` in a dictionary element, if there is one.
pub uninterp spec fn bencode_bytes_entry(e: BencodeElem, key: Seq<char>) -> Option<Seq<u8>>;

/// The bencoding of an element.
pub uninterp spec fn bencode_encoding(e: BencodeElem) -> Seq<u8>;

/// Relies on `BencodeElem::from_bytes`: parses every element of `raw` in turn;
/// empty input gives none, and input that parses and is not empty gives at least one.
/// The parse depends on `raw` alone, so what its first element holds (whether it is
/// a dictionary, its byte-string entries, its encoding) does too.
#[verifier::external_body]
pub(crate) fn decode_bencode(raw: &[u8]) -> (r: Result<Vec<BencodeElem>, LavaTorrentError>)
    ensures
        match r {
            Ok(v) => bencode_element_count(raw@) == Some(v@.len()),
            Err(_) => bencode_element_count(raw@) is None,
        },
        raw@.len() == 0 ==> r is Ok && r->Ok_0@.len() == 0,
        r is Ok && raw@.len() > 0 ==> r->Ok_0@.len() > 0,
        r is Ok && r->Ok_0@.len() > 0 ==> {
            &&& bencode_is_dict(r->Ok_0@[0]) == bencode_first_is_dict(raw@)
            &&& forall|k: Seq<char>| #[trigger]
                bencode_bytes_entry(r->Ok_0@[0], k) == bencode_first_bytes_entry(raw@, k)
            &&& bencode_encoding(r->Ok_0@[0]) == bencode_first_encoding(raw@)
        },
{
    BencodeElem::from_bytes(raw)
}

/// Relies on the `Dictionary` and `RawDictionary` variants of `BencodeElem`.
#[verifier::external_body]
pub(crate) fn is_dict(e: &BencodeElem) -> (r: bool)
    ensures
        r == bencode_is_dict(*e),
{
    match e {
        BencodeElem::Dictionary(_) => true,
        BencodeElem::RawDictionary(_) => true,
        _ => false,
    }
}

/// Relies on the map held by a dictionary `BencodeElem`: the value under `key`,
/// when it is a `Bytes` or a `String` element, as bytes.
#[verifier::external_body]
pub(crate) fn bytes_entry(e: &BencodeElem, key: &str) -> (r: Option<Vec<u8>>)
    ensures
        match r {
            Some(b) => bencode_bytes_entry(*e, key@) == Some(b@),
            None => bencode_bytes_entry(*e, key@) is None,
        },
        !bencode_is_dict(*e) ==> r is None,
{
    let v = match e {
        BencodeElem::Dictionary(d) => d.get(key),
        BencodeElem::RawDictionary(d) => d.get(key.as_bytes()),
        _ => None,
    };
    match v {
        Some(BencodeElem::Bytes(b)) => Some(b.clone()),
        Some(BencodeElem::String(s)) => Some(s.as_bytes().to_vec()),
        _ => None,
    }
}

/// Relies on `BencodeElem::encode`.
#[verifier::external_body]
pub(crate) fn encode_bencode(e: &BencodeElem) -> (r: Vec<u8>)
    ensures
        r@ == bencode_encoding(*e),
{
    e.encode()
}

/// Relies on `BencodeElem::Integer`, which encodes as `i<digits>e`.
#[verifier::external_body]
pub(crate) fn integer_elem(n: u8) -> (r: BencodeElem)
    ensures
        bencode_encoding(r) == integer_encoding(n as nat),
{
    BencodeElem::Integer(n as i64)
}

/// Relies on `BencodeElem::Bytes`, which encodes as `<length>:<bytes>`.
#[verifier::external_body]
pub(crate) fn bytes_elem(b: Vec<u8>) -> (r: BencodeElem)
    ensures
        bencode_encoding(r) == byte_string_encoding(b@),
{
    BencodeElem::Bytes(b)
}

/// Relies on `BencodeElem::Dictionary`: a dictionary of one entry encodes as
/// `d`, the key as a byte string, the value, `e`.
#[verifier::external_body]
pub(crate) fn single_entry_elem(key: &str, value: BencodeElem) -> (r: BencodeElem)
    requires
        is_ascii(key@),
    ensures
        bencode_is_dict(r),
        bencode_encoding(r) == single_entry_encoding(ascii_bytes(key@), bencode_encoding(value)),
{
    BencodeElem::Dictionary(std::collections::HashMap::from([(key.to_string(), value)]))
}

} // verus!
