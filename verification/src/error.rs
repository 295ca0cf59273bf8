use vstd::prelude::*;

verus! {

/// Why decoding failed. Parsing fails fast: the first error anywhere in a
/// record sequence aborts the whole surrounding parse. A structurally valid
/// record with an unknown kind code is never an error; it becomes an opaque
/// attribute instead.
#[derive(Debug, Clone, Copy, PartialEq, Eq, Structural)]
pub enum DecodeError {
    /// A fixed-layout structure, or a record's declared length, needs more
    /// bytes than the buffer holds.
    BufferTooShort,
    /// A record declares a length below the four header bytes, or a record
    /// sequence ends in a nonzero remainder shorter than one header.
    MalformedLength,
    /// A fixed-shape value (an address) is present but not the width its
    /// encoding requires.
    UnexpectedValueLength,
    /// An integer field's payload is not the width of its type.
    UnparseableScalar,
}

} // verus!
