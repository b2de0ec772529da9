use vstd::prelude::*;

verus! {

/// Why a binary payload cannot be read.
#[derive(Clone, Copy, Debug, PartialEq, Eq, Structural)]
pub enum BinDecodeError {
    /// The bytes end before the payload does.
    Incomplete,
    /// A byte that must have a fixed value has another.
    Failure,
}

/// Why a text is not base64.
#[derive(Clone, Copy, Debug, PartialEq, Eq, Structural)]
pub enum Base64DecodeError {
    /// A byte outside the alphabet, with its offset.
    InvalidByte(usize, u8),
    /// The text has a length that no base64 text has.
    InvalidLength,
    /// The last symbol, at the given offset, holds bits that would be discarded.
    InvalidLastSymbol(usize, u8),
}

/// Failures in reading a game announcement.
#[derive(Clone, Copy, Debug)]
pub enum Error {
    /// An entry of the announcement is missing or cannot be read; the text says which.
    InvalidGameInfo(&'static str),
    /// The `game_data` entry is not base64.
    Base64Decode(Base64DecodeError),
    /// The payload of the `game_data` entry cannot be read.
    BinDecode(BinDecodeError),
}

pub type Result<T, E = Error> = std::result::Result<T, E>;

} // verus!
