use vstd::prelude::*;

verus! {

/// Why a chunk tag, a chunk record or a payload view was refused.
#[derive(PartialEq, Eq, Structural, Debug, Clone, Copy)]
pub enum PngError {
    /// A textual chunk tag is not exactly four bytes long.
    InvalidLength,
    /// A textual chunk tag holds a byte that is not an ASCII letter.
    InvalidCharacter,
    /// The buffer ends before the record that its length field declares.
    TooShort,
    /// The stored checksum disagrees with the one computed over tag and payload.
    CrcMismatch,
    /// The payload is not valid UTF-8 text.
    NotUtf8,
}

} // verus!
