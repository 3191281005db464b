use vstd::prelude::*;

use crate::error::Error;
use crate::wire::copy_range;

verus! {

/// Bit `k` of byte `b`, counting from the most significant bit.
pub open spec fn bit_of(b: u8, k: u8) -> bool {
    ((b >> (7 - k) as u8) & 1u8) == 1u8
}

/// `b` with bit `k` (from the most significant bit) set to `flag`.
pub open spec fn with_bit(b: u8, k: u8, flag: bool) -> u8 {
    if flag {
        b | (128u8 >> k)
    } else {
        b & !(128u8 >> k)
    }
}

/// Bit `n` of a packed buffer: byte `n / 8`, position `n % 8` from the top;
/// `None` past the end of the buffer.
pub open spec fn bit_get(bits: Seq<u8>, n: int) -> Option<bool> {
    if 0 <= n && n / 8 < bits.len() {
        Some(bit_of(bits[n / 8], (n % 8) as u8))
    } else {
        None
    }
}

/// The buffer with bit `n` set to `flag`; unchanged when `n` is past its end.
pub open spec fn bit_set(bits: Seq<u8>, n: int, flag: bool) -> Seq<u8> {
    if 0 <= n && n / 8 < bits.len() {
        bits.update(n / 8, with_bit(bits[n / 8], (n % 8) as u8, flag))
    } else {
        bits
    }
}

/// A cleared buffer with room for `bit_count` bits: `ceil(bit_count / 8)` zero bytes.
pub open spec fn zeroed(bit_count: nat) -> Seq<u8> {
    Seq::new((bit_count + 7) / 8, |_i: int| 0u8)
}

/// Which pieces of a torrent a peer has, one bit per piece.
#[derive(Debug)]
pub struct Bitfield {
    bitfield: Vec<u8>,
}

impl View for Bitfield {
    type V = Seq<u8>;

    closed spec fn view(&self) -> Seq<u8> {
        self.bitfield@
    }
}

impl Bitfield {
    /// A cleared bitfield for `bit_cnt` pieces.
    pub fn new(bit_cnt: u32) -> (r: Bitfield)
        ensures
            r@ == zeroed(bit_cnt as nat),
    {
        let n: u32 = bit_cnt / 8 + if bit_cnt % 8 != 0 { 1u32 } else { 0u32 };
        let bitfield = vec![0u8; n as usize];
        let r = Bitfield { bitfield };
        assert(r@ =~= zeroed(bit_cnt as nat));
        r
    }

    /// Takes a received payload as the bit buffer; an empty one is refused.
    pub fn try_from_bytes(raw: &[u8]) -> (r: Result<Bitfield, Error>)
        ensures
            raw@.len() > 0 <==> r is Ok,
            r is Ok ==> r->Ok_0@ == raw@,
            r is Err ==> r->Err_0 is InvalidLength,
    {
        if raw.len() == 0 {
            return Err(Error::InvalidLength);
        }
        let bitfield = copy_range(raw, 0, raw.len());
        assert(raw@.subrange(0, raw@.len() as int) =~= raw@);
        Ok(Bitfield { bitfield })
    }

    /// The bit buffer, as it goes on the wire.
    pub fn bytes(&self) -> (r: Vec<u8>)
        ensures
            r@ == self@,
    {
        copy_range(self.bitfield.as_slice(), 0, self.bitfield.len())
    }

    /// Bit `n`, or `None` when `n` lies past the buffer.
    pub fn get(&self, n: usize) -> (r: Option<bool>)
        ensures
            r == bit_get(self@, n as int),
    {
        let byte = n / 8;
        let bit = (n % 8) as u8;
        if byte < self.bitfield.len() {
            Some((self.bitfield[byte] >> (7 - bit)) & 1 == 1)
        } else {
            None
        }
    }

    /// Sets bit `index` to `flag`; does nothing when `index` lies past the buffer.
    pub fn set(&mut self, index: usize, flag: bool)
        ensures
            final(self)@ == bit_set(old(self)@, index as int, flag),
    {
        let byte = index / 8;
        let bit = (index % 8) as u8;
        if byte < self.bitfield.len() {
            let b = self.bitfield[byte];
            let v = if flag {
                b | (128u8 >> bit)
            } else {
                b & !(128u8 >> bit)
            };
            self.bitfield[byte] = v;
        }
    }
}

/// Bit `k` of a byte reads back what `with_bit` wrote there, and the other bits keep their value.
proof fn lemma_with_bit(b: u8, k: u8, j: u8, flag: bool)
    requires
        k < 8,
        j < 8,
    ensures
        bit_of(with_bit(b, k, flag), k) == flag,
        j != k ==> bit_of(with_bit(b, k, flag), j) == bit_of(b, j),
{
    assert(((b | (128u8 >> k)) >> (7 - k) as u8) & 1u8 == 1u8) by (bit_vector)
        requires k < 8;
    assert(((b & !(128u8 >> k)) >> (7 - k) as u8) & 1u8 == 0u8) by (bit_vector)
        requires k < 8;
    assert(j != k ==> ((b | (128u8 >> k)) >> (7 - j) as u8) & 1u8 == (b >> (7 - j) as u8) & 1u8)
        by (bit_vector)
        requires k < 8, j < 8;
    assert(j != k ==> ((b & !(128u8 >> k)) >> (7 - j) as u8) & 1u8 == (b >> (7 - j) as u8) & 1u8)
        by (bit_vector)
        requires k < 8, j < 8;
}

/// Every bit of a new bitfield reads as clear.
pub proof fn lemma_new_all_clear(bit_count: nat, i: int)
    requires
        0 <= i < bit_count,
    ensures
        bit_get(zeroed(bit_count), i) == Some(false),
{
    assert(i / 8 < (bit_count + 7) / 8) by (nonlinear_arith)
        requires 0 <= i < bit_count;
    let k = (i % 8) as u8;
    assert((0u8 >> (7 - k) as u8) & 1u8 == 0u8) by (bit_vector);
}

/// Within the buffer, a bit reads back what was last written to it and the
/// other bits are untouched; past the buffer, reading gives `None` and
/// writing changes nothing.
pub proof fn lemma_set_then_get(bits: Seq<u8>, i: int, j: int, flag: bool)
    requires
        0 <= i,
        0 <= j,
    ensures
        i < bits.len() * 8 ==> bit_get(bit_set(bits, i, flag), i) == Some(flag),
        i < bits.len() * 8 && j != i ==> bit_get(bit_set(bits, i, flag), j) == bit_get(bits, j),
        i >= bits.len() * 8 ==> bit_get(bits, i) is None && bit_set(bits, i, flag) == bits,
{
    if i < bits.len() * 8 {
        let k = (i % 8) as u8;
        let m = (j % 8) as u8;
        lemma_with_bit(bits[i / 8], k, m, flag);
        if j != i && j / 8 == i / 8 {
            assert(j % 8 != i % 8);
        }
    }
}

} // verus!
