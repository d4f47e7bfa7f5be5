//! The operations the command line offers, as plain values.
use crate::chunk_type::ChunkType;
use vstd::prelude::*;

verus! {

/// One operation on a container file.
#[derive(Debug)]
pub enum Commands {
    Encode(EncodeArgs),
    Decode(DecodeArgs),
    Remove(RemoveArgs),
    Print(PrintArgs),
}

/// Embed `message` as a new chunk of type `chunk_type`; write the result to
/// `output_file`, or to standard output when there is none.
#[derive(Debug)]
pub struct EncodeArgs {
    pub path: String,
    pub chunk_type: ChunkType,
    pub message: String,
    pub output_file: Option<String>,
}

/// Print the payload of the first chunk of type `chunk_type` as text.
#[derive(Debug)]
pub struct DecodeArgs {
    pub path: String,
    pub chunk_type: ChunkType,
}

/// Remove the first chunk of type `chunk_type` and rewrite the file.
#[derive(Debug)]
pub struct RemoveArgs {
    pub path: String,
    pub chunk_type: ChunkType,
}

/// Print a summary of every chunk.
#[derive(Debug)]
pub struct PrintArgs {
    pub path: String,
}

} // verus!
