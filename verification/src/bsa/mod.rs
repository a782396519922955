//! Archives: their plain data and the codecs of their entries.

pub mod codec;
pub mod parser;
pub mod types;

pub use parser::BsaArchive;
pub use types::{BsaFile, BsaHeader, CompressionType};
