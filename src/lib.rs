//! Codec for the BitTorrent peer wire protocol: typed messages and their
//! byte layouts, with the extension-protocol envelope and peer exchange.

pub mod bencode;
pub mod bitfield;
pub mod error;
pub mod extended;
pub mod message;
pub mod wire;

pub use bitfield::Bitfield;
pub use error::Error;
pub use wire::{prepend, Cancel, Have, Piece, Port, Request};
pub use extended::{Extended, PeerAddr, UtPex, UT_PEX_EXTENDED_MSG_ID};
pub use message::Message;
