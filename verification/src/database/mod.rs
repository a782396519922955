//! The texture catalog and how it is built.

pub mod discovery;
pub mod ranking;
pub mod texture_record;

pub use discovery::TextureDiscoveryService;
pub use texture_record::TextureRecord;
