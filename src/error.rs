use vstd::prelude::*;

use lava_torrent::LavaTorrentError;

verus! {

/// Why a payload could not be decoded.
#[derive(Debug)]
pub enum Error {
    /// The payload does not have the exact or minimum size of its message.
    InvalidLength,
    /// The bencoded part of a payload does not parse.
    MalformedBencode(LavaTorrentError),
    /// An extended payload carried no decodable element, or not the expected one.
    EmptyExtendedPayload,
    /// A message carries a type tag that this codec does not know.
    UnknownMessageType,
}

} // verus!
