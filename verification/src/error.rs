//! The error taxonomy shared by every codec layer.

use vstd::prelude::*;

verus! {

/// Every parser and encoder of the crate is total: it either returns a fully
/// formed record or one of these typed errors, and never panics on input the
/// caller is allowed to pass.
#[derive(Clone, Copy, Debug, PartialEq, Eq, Structural)]
pub enum Http2Error {
    /// Structural violation of a frame payload: bad length, bad flag
    /// combination, or a bad sub-field.
    FrameError,
    /// The input buffer is too short for the requested structure.
    Truncated,
    /// The frame type octet lies outside the ten known types.
    UnknownFrameType,
    /// HPACK layer violation: invalid representation discriminator, integer
    /// overflow, or a malformed string.
    HpackError,
    /// An HPACK index refers to a slot outside the unified table.
    IndexationError,
    /// Invalid Huffman code, an EOS symbol inside the payload, or padding
    /// bits that are not all ones.
    HuffmanDecodingError,
    /// Reserved for higher-level header validation.
    HeaderError,
}

} // verus!
