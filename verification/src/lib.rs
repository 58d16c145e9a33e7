//! Rendering and command planning for a semantic Python navigation tool.
pub mod text;
pub mod model;
pub mod render;
pub mod commands;
