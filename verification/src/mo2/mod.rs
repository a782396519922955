//! The source registry and the virtual namespace built from it.

pub mod profile;
pub mod vfs;

pub use profile::{Mod, ModState, Profile};
pub use vfs::{FileSource, VirtualFileSystem};
