//! The HPACK header-compression layer: primitives, the canonical Huffman
//! code, header fields, the indexed tables, wire representations and the
//! header-list codec.

pub mod field;
pub mod huffman;
pub mod list;
pub mod primitive;
pub mod representation;
pub mod table;
