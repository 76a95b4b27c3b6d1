//! Rendering support: separation plates.
pub mod separation_renderer;
