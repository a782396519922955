//! Resolution of layered texture sources into one catalog.

pub mod bsa;
pub mod database;
pub mod dds;
pub mod exclusions;
pub mod extraction;
pub mod game;
pub mod gui;
pub mod keyed;
pub mod mo2;
pub mod optimization;
pub mod paths;
pub mod presets;
pub mod selection;
pub mod text;
