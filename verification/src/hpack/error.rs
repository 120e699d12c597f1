use vstd::prelude::*;

verus! {

/// Why a header block cannot be decompressed.
#[derive(Debug, Copy, Clone, PartialEq, Eq, Structural)]
pub enum DecoderError {
    /// An index points outside both tables.
    InvalidTableIndex,
    /// A string is not a valid Huffman code.
    InvalidHuffmanCode,
    /// A name or a value holds bytes that it may not hold.
    InvalidUtf8,
    /// The status is not a three-digit number.
    InvalidStatusCode,
    /// A pseudo-header that does not exist.
    InvalidPseudoheader,
    /// A table size update is over the limit or not at the head of a block.
    InvalidMaxDynamicSize,
    /// An integer takes more bytes than any valid one.
    IntegerOverflow,
    /// The block ends too early.
    NeedMore(NeedMore),
}

/// What the block ends in.
#[derive(Debug, Copy, Clone, PartialEq, Eq, Structural)]
pub enum NeedMore {
    /// In a header with an empty name.
    UnexpectedEndOfStream,
    /// In an integer.
    IntegerUnderflow,
    /// In a string.
    StringUnderflow,
}

} // verus!
