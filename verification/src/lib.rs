//! A falling-sand grid simulation: typed cells on a pixel grid, the rules by
//! which one tick moves sand and spreads fire, and the pixel buffer that shows
//! the result.
//!
//! - [`cell_types`]: the cell types, the single cell and its update rule.
//! - [`grid`]: the world as a mathematical value, over which the contracts
//!   are stated.
//! - [`game`]: the world, its queries and edits.
//! - [`tick`]: the step that advances the world.
//! - [`render`]: the world as a buffer of packed colours.
//! - [`laws`]: what holds of the rules taken together.
//! - [`geometry`], [`utils`], [`vector`]: grid arithmetic, colour packing,
//!   and the coordinate pair.

pub mod cell_types;
pub mod game;
pub mod geometry;
pub mod grid;
pub mod laws;
pub mod render;
pub mod tick;
pub mod utils;
pub mod vector;

pub use cell_types::{Cell, CellType};
pub use game::World;
pub use grid::Grid;
pub use utils::enccol;
