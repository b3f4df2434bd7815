//! Archiving pipeline for a single Reddit post: resolve loosely-formatted
//! user input to a canonical post identifier, build fetch URLs, classify
//! attached media, and render a normalized Markdown document.
//!
//! Network and filesystem access live outside this library; every function
//! here is pure computation with a verified contract.

pub mod media;
pub mod record;
pub mod render;
pub mod resolver;
pub mod scan;
