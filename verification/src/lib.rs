//! A character-grid renderer core and the snake game that draws on it.
//!
//! The grid of coloured glyph cells, its dirty tracking and the mesh that is
//! built from it are plain data here; the caller owns the window and the GPU.

pub mod clock;
pub mod game;
pub mod gfx;
pub mod grid;
pub mod input;
pub mod mesh;
pub mod rules;
