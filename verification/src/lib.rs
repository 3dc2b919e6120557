//! Loading of XPS/OXPS fixed-layout documents: a ZIP package whose XML parts
//! are decoded into an in-memory document model for a pluggable renderer.

pub mod archive;
pub mod error;
pub mod parts;
pub mod relationships;
pub mod renderer;
pub mod scalar;
pub mod xml;
pub mod xps;

pub use crate::renderer::Renderer;
pub use crate::xps::XPS;
