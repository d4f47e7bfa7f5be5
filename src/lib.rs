//! Codec for a tagged-chunk binary container: typed four-letter identifiers,
//! length-prefixed checksummed chunks, and the signed container that holds them.
pub mod args;
pub mod ascii_art;
pub mod chunk;
pub mod chunk_type;
pub mod png;
pub mod text;
pub mod util;
