//! A verified Conway's Game of Life engine with a pixel-buffer renderer.
//!
//! The simulation state lives in [`game::GameOfLife`]; the automaton's
//! transition rule is specified in [`life`]; [`render`] holds the pixel
//! canvas that draws the grid with optional gridlines; [`patterns`] stamps
//! starting shapes onto a grid; [`laws`] states and proves the library's
//! general properties.

pub mod game;
pub mod laws;
pub mod life;
pub mod patterns;
pub mod render;

pub use game::GameOfLife;
pub use life::GameModel;
