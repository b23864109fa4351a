use vstd::prelude::*;

pub mod checksum;
pub mod chunk;
pub mod chunk_type;
pub mod error;
pub mod search;
pub mod text;

pub use chunk::Chunk;
pub use chunk_type::ChunkType;
pub use error::PngError;
pub use search::{search, search_case_insensitive, Config};

verus! {

} // verus!
