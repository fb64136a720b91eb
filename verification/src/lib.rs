//! Decoder for BC7 texture blocks.
//!
//! A block is 16 bytes and holds a 4x4 tile of texels. Bit 0 of byte 0 is the
//! first bit of the block; the number of clear bits before the first set bit
//! is the block's mode, and the mode fixes the layout of every field after it.
//!
//! [`decode::decode_block`] decodes one block and [`decode::decode_blocks`] a
//! run of them. The modules below it hold the parts: the bit cursor, the
//! layouts of the modes, the partition tables, the endpoints, the index
//! streams and the interpolation.
pub mod error;
pub mod bits;
pub mod color;
pub mod partition;
pub mod layout;
pub mod endpoint;
pub mod index;
pub mod fields;
pub mod decode;
