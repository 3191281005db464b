use vstd::prelude::*;

use crate::error::Error;

verus! {

/// The unsigned integer that two big-endian bytes stand for.
pub open spec fn be_u16(s: Seq<u8>) -> int {
    s[0] * 256 + s[1]
}

/// The unsigned integer that four big-endian bytes stand for.
pub open spec fn be_u32(s: Seq<u8>) -> int {
    s[0] * 16777216 + s[1] * 65536 + s[2] * 256 + s[3]
}

/// The two big-endian bytes of `v`.
pub open spec fn u16_be(v: u16) -> Seq<u8> {
    seq![(v / 256) as u8, (v % 256) as u8]
}

/// The four big-endian bytes of `v`.
pub open spec fn u32_be(v: u32) -> Seq<u8> {
    seq![(v / 16777216) as u8, ((v / 65536) % 256) as u8, ((v / 256) % 256) as u8, (v % 256) as u8]
}

/// Reading back the bytes of a `u32` gives the value.
pub proof fn lemma_u32_be_round_trip(v: u32)
    ensures
        u32_be(v).len() == 4,
        be_u32(u32_be(v)) == v as int,
{
    let x = v as int;
    assert(x == (x / 16777216) * 16777216 + ((x / 65536) % 256) * 65536 + ((x / 256) % 256) * 256
        + x % 256) by (nonlinear_arith)
        requires 0 <= x < 4294967296;
}

/// Reading back the bytes of a `u16` gives the value.
pub proof fn lemma_u16_be_round_trip(v: u16)
    ensures
        u16_be(v).len() == 2,
        be_u16(u16_be(v)) == v as int,
{
}

/// The `u32` at `raw[at..at + 4]`, big-endian.
pub(crate) fn read_u32(raw: &[u8], at: usize) -> (r: u32)
    requires
        at + 4 <= raw@.len(),
    ensures
        r as int == be_u32(raw@.subrange(at as int, at + 4)),
{
    let a = raw[at] as u32;
    let b = raw[at + 1] as u32;
    let c = raw[at + 2] as u32;
    let d = raw[at + 3] as u32;
    assert(a * 16777216 + b * 65536 + c * 256 + d < 4294967296) by (nonlinear_arith)
        requires a < 256, b < 256, c < 256, d < 256;
    a * 16777216 + b * 65536 + c * 256 + d
}

/// The `u16` at `raw[at..at + 2]`, big-endian.
pub(crate) fn read_u16(raw: &[u8], at: usize) -> (r: u16)
    requires
        at + 2 <= raw@.len(),
    ensures
        r as int == be_u16(raw@.subrange(at as int, at + 2)),
{
    (raw[at] as u16) * 256 + raw[at + 1] as u16
}

/// Appends the four big-endian bytes of `v` to `out`.
pub(crate) fn push_u32(out: &mut Vec<u8>, v: u32)
    ensures
        final(out)@ == old(out)@ + u32_be(v),
{
    out.push((v / 16777216) as u8);
    out.push(((v / 65536) % 256) as u8);
    out.push(((v / 256) % 256) as u8);
    out.push((v % 256) as u8);
    assert(final(out)@ =~= old(out)@ + u32_be(v));
}

/// A new buffer holding `raw[from..to]`.
pub(crate) fn copy_range(raw: &[u8], from: usize, to: usize) -> (r: Vec<u8>)
    requires
        from <= to <= raw@.len(),
    ensures
        r@ == raw@.subrange(from as int, to as int),
{
    let mut r: Vec<u8> = Vec::new();
    let mut i: usize = from;
    while i < to
        invariant
            from <= i <= to <= raw@.len(),
            r@ == raw@.subrange(from as int, i as int),
        decreases to - i,
    {
        r.push(raw[i]);
        i = i + 1;
        assert(r@ =~= raw@.subrange(from as int, i as int));
    }
    r
}

/// Appends the two big-endian bytes of `v` to `out`.
pub(crate) fn push_u16(out: &mut Vec<u8>, v: u16)
    ensures
        final(out)@ == old(out)@ + u16_be(v),
{
    out.push((v / 256) as u8);
    out.push((v % 256) as u8);
    assert(final(out)@ =~= old(out)@ + u16_be(v));
}

/// `l` followed by `r`, in a new buffer.
pub fn prepend(l: &[u8], r: &[u8]) -> (ret: Vec<u8>)
    ensures
        ret@ == l@ + r@,
{
    let mut ret: Vec<u8> = Vec::new();
    ret.extend_from_slice(l);
    ret.extend_from_slice(r);
    assert(ret@ =~= l@ + r@);
    ret
}

/// A peer announces that it has completed piece `piece_index`.
#[derive(Debug, Clone, Copy, PartialEq, Eq, Structural)]
pub struct Have {
    pub piece_index: u32,
}

impl Have {
    /// Decodes a body of exactly four bytes.
    pub fn try_from_bytes(raw: &[u8]) -> (r: Result<Have, Error>)
        ensures
            raw@.len() == 4 <==> r is Ok,
            r is Ok ==> r->Ok_0.piece_index as int == be_u32(raw@),
            r is Err ==> r->Err_0 is InvalidLength,
    {
        if raw.len() != 4 {
            return Err(Error::InvalidLength);
        }
        let piece_index = read_u32(raw, 0);
        assert(raw@.subrange(0, 4) =~= raw@);
        Ok(Have { piece_index })
    }

    /// The four-byte body of this message.
    pub fn bytes(&self) -> (r: [u8; 4])
        ensures
            r@ == u32_be(self.piece_index),
    {
        let v = self.piece_index;
        let r = [(v / 16777216) as u8, ((v / 65536) % 256) as u8, ((v / 256) % 256) as u8, (v % 256) as u8];
        assert(r@ =~= u32_be(v));
        r
    }
}

/// The twelve-byte body shared by `Request` and `Cancel`: index, begin, length.
pub open spec fn block_ref_bytes(index: u32, begin: u32, len: u32) -> Seq<u8> {
    u32_be(index) + u32_be(begin) + u32_be(len)
}

/// Reads the three big-endian fields of a twelve-byte body.
fn read_block_ref(raw: &[u8]) -> (r: (u32, u32, u32))
    requires
        raw@.len() == 12,
    ensures
        r.0 as int == be_u32(raw@.subrange(0, 4)),
        r.1 as int == be_u32(raw@.subrange(4, 8)),
        r.2 as int == be_u32(raw@.subrange(8, 12)),
{
    (read_u32(raw, 0), read_u32(raw, 4), read_u32(raw, 8))
}

/// Writes three fields as a twelve-byte body.
fn write_block_ref(index: u32, begin: u32, len: u32) -> (r: [u8; 12])
    ensures
        r@ == block_ref_bytes(index, begin, len),
{
    let mut raw: Vec<u8> = Vec::new();
    push_u32(&mut raw, index);
    push_u32(&mut raw, begin);
    push_u32(&mut raw, len);
    let r = [raw[0], raw[1], raw[2], raw[3], raw[4], raw[5], raw[6], raw[7], raw[8], raw[9], raw[10], raw[11]];
    assert(r@ =~= block_ref_bytes(index, begin, len));
    r
}

/// A peer asks for `len` bytes of piece `index`, starting at offset `begin`.
#[derive(Debug, Clone, Copy, PartialEq, Eq, Structural)]
pub struct Request {
    pub index: u32,
    pub begin: u32,
    pub len: u32,
}

impl Request {
    pub fn new(index: u32, begin: u32, len: u32) -> (r: Request)
        ensures
            r == (Request { index, begin, len }),
    {
        Request { index, begin, len }
    }

    /// Decodes a body of exactly twelve bytes.
    pub fn try_from_bytes(raw: &[u8]) -> (r: Result<Request, Error>)
        ensures
            raw@.len() == 12 <==> r is Ok,
            r is Ok ==> {
                &&& r->Ok_0.index as int == be_u32(raw@.subrange(0, 4))
                &&& r->Ok_0.begin as int == be_u32(raw@.subrange(4, 8))
                &&& r->Ok_0.len as int == be_u32(raw@.subrange(8, 12))
            },
            r is Err ==> r->Err_0 is InvalidLength,
    {
        if raw.len() != 12 {
            return Err(Error::InvalidLength);
        }
        let (index, begin, len) = read_block_ref(raw);
        Ok(Request { index, begin, len })
    }

    /// The twelve-byte body of this message.
    pub fn bytes(&self) -> (r: [u8; 12])
        ensures
            r@ == block_ref_bytes(self.index, self.begin, self.len),
    {
        write_block_ref(self.index, self.begin, self.len)
    }
}

/// A peer withdraws an earlier request for `len` bytes of piece `index` at `begin`.
#[derive(Debug, Clone, Copy, PartialEq, Eq, Structural)]
pub struct Cancel {
    pub index: u32,
    pub begin: u32,
    pub len: u32,
}

impl Cancel {
    /// Decodes a body of exactly twelve bytes.
    pub fn try_from_bytes(raw: &[u8]) -> (r: Result<Cancel, Error>)
        ensures
            raw@.len() == 12 <==> r is Ok,
            r is Ok ==> {
                &&& r->Ok_0.index as int == be_u32(raw@.subrange(0, 4))
                &&& r->Ok_0.begin as int == be_u32(raw@.subrange(4, 8))
                &&& r->Ok_0.len as int == be_u32(raw@.subrange(8, 12))
            },
            r is Err ==> r->Err_0 is InvalidLength,
    {
        if raw.len() != 12 {
            return Err(Error::InvalidLength);
        }
        let (index, begin, len) = read_block_ref(raw);
        Ok(Cancel { index, begin, len })
    }

    /// The twelve-byte body of this message.
    pub fn bytes(&self) -> (r: [u8; 12])
        ensures
            r@ == block_ref_bytes(self.index, self.begin, self.len),
    {
        write_block_ref(self.index, self.begin, self.len)
    }
}

/// The port on which a peer's DHT node listens.
#[derive(Debug, Clone, Copy, PartialEq, Eq, Structural)]
pub struct Port {
    pub listen_port: u16,
}

impl Port {
    /// Decodes a body of exactly two bytes.
    pub fn try_from_bytes(raw: &[u8]) -> (r: Result<Port, Error>)
        ensures
            raw@.len() == 2 <==> r is Ok,
            r is Ok ==> r->Ok_0.listen_port as int == be_u16(raw@),
            r is Err ==> r->Err_0 is InvalidLength,
    {
        if raw.len() != 2 {
            return Err(Error::InvalidLength);
        }
        let listen_port = read_u16(raw, 0);
        assert(raw@.subrange(0, 2) =~= raw@);
        Ok(Port { listen_port })
    }

    /// The two-byte body of this message.
    pub fn bytes(&self) -> (r: [u8; 2])
        ensures
            r@ == u16_be(self.listen_port),
    {
        let v = self.listen_port;
        let r = [(v / 256) as u8, (v % 256) as u8];
        assert(r@ =~= u16_be(v));
        r
    }
}

/// A block of data: `block` holds the bytes of piece `index` from offset `begin`.
#[derive(Debug)]
pub struct Piece {
    pub index: u32,
    pub begin: u32,
    pub block: Vec<u8>,
}

/// The body of a `Piece`: index, begin, then the block.
pub open spec fn piece_bytes(index: u32, begin: u32, block: Seq<u8>) -> Seq<u8> {
    u32_be(index) + u32_be(begin) + block
}

impl Piece {
    /// Decodes a body of at least eight bytes; all after the eighth is the block.
    pub fn try_from_bytes(raw: &[u8]) -> (r: Result<Piece, Error>)
        ensures
            raw@.len() >= 8 <==> r is Ok,
            r is Ok ==> {
                &&& r->Ok_0.index as int == be_u32(raw@.subrange(0, 4))
                &&& r->Ok_0.begin as int == be_u32(raw@.subrange(4, 8))
                &&& r->Ok_0.block@ == raw@.subrange(8, raw@.len() as int)
            },
            r is Err ==> r->Err_0 is InvalidLength,
    {
        if raw.len() < 8 {
            return Err(Error::InvalidLength);
        }
        let index = read_u32(raw, 0);
        let begin = read_u32(raw, 4);
        let block = copy_range(raw, 8, raw.len());
        Ok(Piece { index, begin, block })
    }

    /// The body of this message: index, begin, then the block.
    pub fn bytes(&self) -> (r: Vec<u8>)
        ensures
            r@ == piece_bytes(self.index, self.begin, self.block@),
    {
        let mut r: Vec<u8> = Vec::new();
        push_u32(&mut r, self.index);
        push_u32(&mut r, self.begin);
        r.extend_from_slice(self.block.as_slice());
        assert(r@ =~= piece_bytes(self.index, self.begin, self.block@));
        r
    }
}

/// The twelve-byte body of three fields decodes back to those fields.
proof fn lemma_block_ref_round_trip(index: u32, begin: u32, len: u32)
    ensures
        block_ref_bytes(index, begin, len).len() == 12,
        be_u32(block_ref_bytes(index, begin, len).subrange(0, 4)) == index as int,
        be_u32(block_ref_bytes(index, begin, len).subrange(4, 8)) == begin as int,
        be_u32(block_ref_bytes(index, begin, len).subrange(8, 12)) == len as int,
{
    let raw = block_ref_bytes(index, begin, len);
    lemma_u32_be_round_trip(index);
    lemma_u32_be_round_trip(begin);
    lemma_u32_be_round_trip(len);
    assert(raw.subrange(0, 4) =~= u32_be(index));
    assert(raw.subrange(4, 8) =~= u32_be(begin));
    assert(raw.subrange(8, 12) =~= u32_be(len));
}

/// Decoding the body of a `Have` gives the same `Have` back.
pub proof fn lemma_have_round_trip(h: Have)
    ensures
        u32_be(h.piece_index).len() == 4,
        be_u32(u32_be(h.piece_index)) == h.piece_index as int,
{
    lemma_u32_be_round_trip(h.piece_index);
}

/// Decoding the body of a `Request` gives the same `Request` back.
pub proof fn lemma_request_round_trip(r: Request)
    ensures
        block_ref_bytes(r.index, r.begin, r.len).len() == 12,
        be_u32(block_ref_bytes(r.index, r.begin, r.len).subrange(0, 4)) == r.index as int,
        be_u32(block_ref_bytes(r.index, r.begin, r.len).subrange(4, 8)) == r.begin as int,
        be_u32(block_ref_bytes(r.index, r.begin, r.len).subrange(8, 12)) == r.len as int,
{
    lemma_block_ref_round_trip(r.index, r.begin, r.len);
}

/// Decoding the body of a `Cancel` gives the same `Cancel` back.
pub proof fn lemma_cancel_round_trip(c: Cancel)
    ensures
        block_ref_bytes(c.index, c.begin, c.len).len() == 12,
        be_u32(block_ref_bytes(c.index, c.begin, c.len).subrange(0, 4)) == c.index as int,
        be_u32(block_ref_bytes(c.index, c.begin, c.len).subrange(4, 8)) == c.begin as int,
        be_u32(block_ref_bytes(c.index, c.begin, c.len).subrange(8, 12)) == c.len as int,
{
    lemma_block_ref_round_trip(c.index, c.begin, c.len);
}

/// Decoding the body of a `Port` gives the same `Port` back.
pub proof fn lemma_port_round_trip(p: Port)
    ensures
        u16_be(p.listen_port).len() == 2,
        be_u16(u16_be(p.listen_port)) == p.listen_port as int,
{
    lemma_u16_be_round_trip(p.listen_port);
}

/// Decoding the body of a `Piece` gives the same index, begin and block back.
pub proof fn lemma_piece_round_trip(p: Piece)
    ensures
        piece_bytes(p.index, p.begin, p.block@).len() >= 8,
        be_u32(piece_bytes(p.index, p.begin, p.block@).subrange(0, 4)) == p.index as int,
        be_u32(piece_bytes(p.index, p.begin, p.block@).subrange(4, 8)) == p.begin as int,
        piece_bytes(p.index, p.begin, p.block@).subrange(
            8,
            piece_bytes(p.index, p.begin, p.block@).len() as int,
        ) == p.block@,
{
    let raw = piece_bytes(p.index, p.begin, p.block@);
    lemma_u32_be_round_trip(p.index);
    lemma_u32_be_round_trip(p.begin);
    assert(raw.subrange(0, 4) =~= u32_be(p.index));
    assert(raw.subrange(4, 8) =~= u32_be(p.begin));
    assert(raw.subrange(8, raw.len() as int) =~= p.block@);
}

} // verus!
