//! A small maze game with a software ray tracer.
//!
//! The renderer casts one ray per pixel (four with super-sampling) into a
//! scene of triangles and point lights, finds the nearest intersection,
//! shades it with a Lambertian term, shadow rays and one mirror bounce, and
//! writes the result into a pixel grid. All geometry is carried in 16.16
//! fixed-point scalars, so every arithmetic step has an exact integer
//! meaning. Around the renderer sit the game parts: maze generation, the
//! menu state machine, and the per-tick game state.

pub mod direction;
pub mod fx;
pub mod game;
pub mod geometry;
pub mod input;
pub mod labyrinth;
pub mod menu;
pub mod play;
pub mod render;
pub mod scene;
pub mod screen;
pub mod state;
pub mod tickable;
