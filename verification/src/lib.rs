//! Builds composite map datasets from per-country declarations.

pub mod color;
pub mod create;
pub mod geometry;
pub mod output;
pub mod overlap;
pub mod profile;
pub mod rewrite;
pub mod split;
pub mod tags;
pub mod types;
