use vstd::prelude::*;

verus! {

/// The fields of a block, in the order in which a block stores them.
#[derive(Debug, Clone, Copy, PartialEq, Eq, Structural)]
pub enum Field {
    /// The clear bits and the set bit that spell the mode.
    Mode,
    /// The partition selector.
    Partition,
    /// The rotation.
    Rotation,
    /// The index selector.
    IndexSelector,
    /// The colour endpoint values.
    Color,
    /// The alpha endpoint values.
    Alpha,
    /// The parity bits.
    Parity,
    /// The first index stream.
    PrimaryIndex,
    /// The second index stream.
    SecondaryIndex,
}

/// Why a block could not be decoded.
#[derive(Debug, Clone, Copy, PartialEq, Eq, Structural)]
pub enum DecodeError {
    /// The input is not exactly 16 bytes; `len` is the number of bytes given.
    InvalidLength { len: usize },
    /// The caller named a mode and the block signals another one.
    ModeMismatch { expected: usize, found: usize },
    /// The block's mode has no layout. `mode` is `None` when no bit of the
    /// block is set.
    UnsupportedMode { mode: Option<usize> },
    /// A field would end past the last bit of the block; `field` is the
    /// first one that would.
    FieldOverrun { field: Field },
}

} // verus!
