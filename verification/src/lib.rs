//! Grid side of a first-person maze renderer.
//!
//! The crate holds everything about the renderer that is decided on whole
//! numbers: the maze grid, the pixel buffer, texture storage and sampling,
//! the classification of ray samples, the painting of wall slices and of
//! billboard sprites behind a per-column depth buffer, and the layout of the
//! overlays. Trigonometry is the caller's: it hands over pixel coordinates
//! and distances as integers.

pub mod color;
pub mod maze;
pub mod bitmap;
pub mod atlas;
pub mod framebuffer;
pub mod textures;
pub mod sprites;
pub mod caster;
pub mod walls;
pub mod painter;
pub mod billboards;
pub mod hud;
pub mod player;
pub mod game;
pub mod minimap;
