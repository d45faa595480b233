//! Packing of 8x8 tiles of 2-bit colour indices into the planar
//! "2 bits per pixel" tile format.
pub mod laws;
pub mod pixel;
pub mod tile;

pub use pixel::{int_to_2bpp, EncodeError, Pixel};
pub use tile::twobpp;
