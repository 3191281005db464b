//! Top-level messages, told apart by a one-byte type tag.

use vstd::prelude::*;

use crate::bitfield::Bitfield;
use crate::error::Error;
use crate::extended::{extended_bytes, extended_decoded, Extended};
use crate::wire::{
    be_u16, be_u32, block_ref_bytes, piece_bytes, prepend, u16_be, u32_be, Cancel, Have, Piece,
    Port, Request,
};

verus! {

pub const CHOKE: u8 = 0;
pub const UNCHOKE: u8 = 1;
pub const INTERESTED: u8 = 2;
pub const NOT_INTERESTED: u8 = 3;
pub const HAVE: u8 = 4;
pub const BITFIELD: u8 = 5;
pub const REQUEST: u8 = 6;
pub const PIECE: u8 = 7;
pub const CANCEL: u8 = 8;
pub const PORT: u8 = 9;
pub const EXTENDED: u8 = 20;

/// A message of the peer wire protocol, after its length prefix.
#[derive(Debug)]
pub enum Message {
    Choke,
    Unchoke,
    Interested,
    NotInterested,
    Have(Have),
    Bitfield(Bitfield),
    Request(Request),
    Piece(Piece),
    Cancel(Cancel),
    Port(Port),
    Extended(Extended),
}

/// What decoding a body under a type tag gives: the decoder of that tag's
/// message decides, and an unknown tag is refused.
pub open spec fn message_decoded(type_id: u8, body: Seq<u8>, r: Result<Message, Error>) -> bool {
    if type_id == CHOKE || type_id == UNCHOKE || type_id == INTERESTED || type_id
        == NOT_INTERESTED {
        if body.len() == 0 {
            match r {
                Ok(Message::Choke) => type_id == CHOKE,
                Ok(Message::Unchoke) => type_id == UNCHOKE,
                Ok(Message::Interested) => type_id == INTERESTED,
                Ok(Message::NotInterested) => type_id == NOT_INTERESTED,
                _ => false,
            }
        } else {
            r is Err && r->Err_0 is InvalidLength
        }
    } else if type_id == HAVE {
        match r {
            Ok(Message::Have(h)) => body.len() == 4 && h.piece_index as int == be_u32(body),
            Err(e) => body.len() != 4 && e is InvalidLength,
            _ => false,
        }
    } else if type_id == BITFIELD {
        match r {
            Ok(Message::Bitfield(b)) => body.len() > 0 && b@ == body,
            Err(e) => body.len() == 0 && e is InvalidLength,
            _ => false,
        }
    } else if type_id == REQUEST {
        match r {
            Ok(Message::Request(q)) => body.len() == 12 && block_ref_bytes(q.index, q.begin, q.len)
                == body,
            Err(e) => body.len() != 12 && e is InvalidLength,
            _ => false,
        }
    } else if type_id == PIECE {
        match r {
            Ok(Message::Piece(p)) => body.len() >= 8 && piece_bytes(p.index, p.begin, p.block@)
                == body,
            Err(e) => body.len() < 8 && e is InvalidLength,
            _ => false,
        }
    } else if type_id == CANCEL {
        match r {
            Ok(Message::Cancel(c)) => body.len() == 12 && block_ref_bytes(c.index, c.begin, c.len)
                == body,
            Err(e) => body.len() != 12 && e is InvalidLength,
            _ => false,
        }
    } else if type_id == PORT {
        match r {
            Ok(Message::Port(p)) => body.len() == 2 && p.listen_port as int == be_u16(body),
            Err(e) => body.len() != 2 && e is InvalidLength,
            _ => false,
        }
    } else if type_id == EXTENDED {
        match r {
            Ok(Message::Extended(e)) => extended_decoded(body, Ok(e)),
            Err(e) => extended_decoded(body, Err(e)),
            _ => false,
        }
    } else {
        r is Err && r->Err_0 is UnknownMessageType
    }
}

/// A message as it goes on the wire: its type tag, then its body.
pub open spec fn message_bytes(m: Message) -> Seq<u8> {
    match m {
        Message::Choke => seq![CHOKE],
        Message::Unchoke => seq![UNCHOKE],
        Message::Interested => seq![INTERESTED],
        Message::NotInterested => seq![NOT_INTERESTED],
        Message::Have(h) => seq![HAVE] + u32_be(h.piece_index),
        Message::Bitfield(b) => seq![BITFIELD] + b@,
        Message::Request(q) => seq![REQUEST] + block_ref_bytes(q.index, q.begin, q.len),
        Message::Piece(p) => seq![PIECE] + piece_bytes(p.index, p.begin, p.block@),
        Message::Cancel(c) => seq![CANCEL] + block_ref_bytes(c.index, c.begin, c.len),
        Message::Port(p) => seq![PORT] + u16_be(p.listen_port),
        Message::Extended(e) => seq![EXTENDED] + extended_bytes(e),
    }
}

/// Four big-endian bytes are the bytes of the integer that they stand for.
proof fn lemma_be_u32_bytes(s: Seq<u8>)
    requires
        s.len() == 4,
    ensures
        u32_be(be_u32(s) as u32) == s,
{
    let (a, b, c, d) = (s[0] as int, s[1] as int, s[2] as int, s[3] as int);
    let x = be_u32(s);
    assert(0 <= x < 4294967296 && x / 16777216 == a && (x / 65536) % 256 == b && (x / 256) % 256
        == c && x % 256 == d) by (nonlinear_arith)
        requires 0 <= a < 256, 0 <= b < 256, 0 <= c < 256, 0 <= d < 256, x == a * 16777216 + b
            * 65536 + c * 256 + d;
    assert(u32_be(x as u32) =~= s);
}

impl Message {
    /// Decodes `body` as the message that `type_id` names.
    pub fn try_from_bytes(type_id: u8, body: &[u8]) -> (r: Result<Message, Error>)
        ensures
            message_decoded(type_id, body@, r),
    {
        if type_id == CHOKE || type_id == UNCHOKE || type_id == INTERESTED || type_id
            == NOT_INTERESTED {
            if body.len() != 0 {
                return Err(Error::InvalidLength);
            }
            if type_id == CHOKE {
                Ok(Message::Choke)
            } else if type_id == UNCHOKE {
                Ok(Message::Unchoke)
            } else if type_id == INTERESTED {
                Ok(Message::Interested)
            } else {
                Ok(Message::NotInterested)
            }
        } else if type_id == HAVE {
            match Have::try_from_bytes(body) {
                Ok(h) => Ok(Message::Have(h)),
                Err(e) => Err(e),
            }
        } else if type_id == BITFIELD {
            match Bitfield::try_from_bytes(body) {
                Ok(b) => Ok(Message::Bitfield(b)),
                Err(e) => Err(e),
            }
        } else if type_id == REQUEST {
            match Request::try_from_bytes(body) {
                Ok(q) => {
                    proof {
                        lemma_block_ref_bytes(body@);
                    }
                    Ok(Message::Request(q))
                },
                Err(e) => Err(e),
            }
        } else if type_id == PIECE {
            match Piece::try_from_bytes(body) {
                Ok(p) => {
                    proof {
                        lemma_be_u32_bytes(body@.subrange(0, 4));
                        lemma_be_u32_bytes(body@.subrange(4, 8));
                        assert(piece_bytes(p.index, p.begin, p.block@) =~= body@);
                    }
                    Ok(Message::Piece(p))
                },
                Err(e) => Err(e),
            }
        } else if type_id == CANCEL {
            match Cancel::try_from_bytes(body) {
                Ok(c) => {
                    proof {
                        lemma_block_ref_bytes(body@);
                    }
                    Ok(Message::Cancel(c))
                },
                Err(e) => Err(e),
            }
        } else if type_id == PORT {
            match Port::try_from_bytes(body) {
                Ok(p) => Ok(Message::Port(p)),
                Err(e) => Err(e),
            }
        } else if type_id == EXTENDED {
            match Extended::try_from_bytes(body) {
                Ok(e) => Ok(Message::Extended(e)),
                Err(e) => Err(e),
            }
        } else {
            Err(Error::UnknownMessageType)
        }
    }

    /// The message as it goes on the wire: its type tag, then its body.
    pub fn bytes(&self) -> (r: Vec<u8>)
        ensures
            r@ == message_bytes(*self),
    {
        match self {
            Message::Choke => prepend(&[CHOKE], &[]),
            Message::Unchoke => prepend(&[UNCHOKE], &[]),
            Message::Interested => prepend(&[INTERESTED], &[]),
            Message::NotInterested => prepend(&[NOT_INTERESTED], &[]),
            Message::Have(h) => prepend(&[HAVE], &h.bytes()),
            Message::Bitfield(b) => prepend(&[BITFIELD], b.bytes().as_slice()),
            Message::Request(q) => prepend(&[REQUEST], &q.bytes()),
            Message::Piece(p) => prepend(&[PIECE], p.bytes().as_slice()),
            Message::Cancel(c) => prepend(&[CANCEL], &c.bytes()),
            Message::Port(p) => prepend(&[PORT], &p.bytes()),
            Message::Extended(e) => prepend(&[EXTENDED], e.bytes().as_slice()),
        }
    }
}

/// Twelve bytes are the body of the three fields that they decode to.
proof fn lemma_block_ref_bytes(s: Seq<u8>)
    requires
        s.len() == 12,
    ensures
        block_ref_bytes(
            be_u32(s.subrange(0, 4)) as u32,
            be_u32(s.subrange(4, 8)) as u32,
            be_u32(s.subrange(8, 12)) as u32,
        ) == s,
{
    lemma_be_u32_bytes(s.subrange(0, 4));
    lemma_be_u32_bytes(s.subrange(4, 8));
    lemma_be_u32_bytes(s.subrange(8, 12));
    assert(block_ref_bytes(
        be_u32(s.subrange(0, 4)) as u32,
        be_u32(s.subrange(4, 8)) as u32,
        be_u32(s.subrange(8, 12)) as u32,
    ) =~= s);
}

} // verus!
