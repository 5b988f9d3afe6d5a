//! Verified core of the ccw rendering stack: render profiles, viewport and
//! pick-buffer arithmetic, mesh edge adjacency, text atlas regions and the
//! source-scoped identifiers that let several geometry packages share one
//! project catalog.

mod text;

pub mod annotation;
pub mod backend;
pub mod classes;
pub mod depth;
pub mod interaction;
pub mod mesh_edges;
mod key_order;

pub mod readback;
pub mod shaders;
pub mod source_ids;
pub mod status;
mod text_set;
pub mod text_atlas;
pub mod tokens;
pub mod viewport;
pub mod web;

pub mod prepare;
pub mod profile;
pub mod project;

pub use profile::{
    available_render_profiles, parse_render_profile, RenderProfileDescriptor, RenderProfileId,
    UnknownRenderProfile,
};
