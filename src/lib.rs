//! Stream compression (DEFLATE) and block texture compression (BC1, BC2, BC3)
//! over plain byte buffers.

pub mod stream;
pub mod texture;

pub use stream::{deflate, inflate, Inflated, StreamError};
pub use texture::{decode, encode, length, CodecError, ImageData, TextureFormat};
