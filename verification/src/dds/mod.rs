//! The DDS texture format: header parsing.

pub mod parser;

pub use parser::{parse_dds_header, DDSHeader, ExtractError};
