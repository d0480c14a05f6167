use vstd::prelude::*;

verus! {

/// Every way in which building, parsing or rendering a chunk can fail.
#[derive(Debug, Clone, Copy, PartialEq, Eq, Structural)]
pub enum ChunkError {
    /// The buffer handed to the parser holds no bytes at all.
    EmptyInput,
    /// The buffer is shorter than the header, the declared payload or the checksum footer need.
    TruncatedInput,
    /// The checksum recomputed over type and payload differs from the stored one.
    CrcMismatch { expected: u32, found: u32 },
    /// A type code was given as text that does not hold exactly four characters.
    InvalidLength,
    /// A type code was given as text holding a character outside `A`-`Z` and `a`-`z`.
    InvalidCharacter,
    /// Bytes asked for as text are not well-formed UTF-8.
    InvalidUtf8,
}

} // verus!
