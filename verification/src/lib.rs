//! Terminal-to-texture rendering core.
//!
//! Turns the character grid of a live shell session into RGBA pixel data:
//! a glyph atlas is rasterized once at startup, every frame the grid is
//! translated into fixed-size cell records, and the records are composited
//! with the atlas into an output texture.  The pseudo-terminal process, the
//! font files and the GPU itself live outside this crate; what is verified
//! here is the layout, packing, lookup and blending logic between them.

pub mod atlas;
pub mod colors;
pub mod events;
pub mod font;
pub mod gpu_prep;
pub mod gpu_types;
pub mod input;
pub mod pty;
pub mod renderer;
pub mod terminal;
