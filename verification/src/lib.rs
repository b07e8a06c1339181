//! A verified codec for PNG chunk records: the length-prefixed, type-tagged,
//! checksummed binary envelope that PNG containers are built from.

pub mod be32;
pub mod checksum;
pub mod chunk;
pub mod chunk_type;
pub mod text;

pub use chunk::Chunk;
pub use chunk::ChunkError;
pub use chunk_type::ChunkType;
pub use chunk_type::ChunkTypeError;
