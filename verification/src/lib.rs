//! A small verified library for organizing files by rendered name templates.
//!
//! The library has two halves: a minimal templating language (parser, data
//! sources, named text transforms, renderer) and a conflict-safe placement
//! policy that never overwrites differing content and deduplicates identical
//! content by a cryptographic digest.

pub mod config;
pub mod conflict_manager;
pub mod errors;
pub mod image;
pub mod template;
pub mod text;
