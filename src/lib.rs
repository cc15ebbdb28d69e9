//! A grid-based snake simulation: a verified engine that consumes buffered key
//! names, advances the snake and its apples once per speed countdown, and
//! describes each frame as a list of plain drawing operations.

pub mod frame;
pub mod grid;
pub mod inner;
pub mod keys;
pub mod laws;
pub mod model;
mod rng;

pub use frame::{Banner, DrawOp};
pub use grid::{CellContents, Vector2D};
pub use inner::Inner;
pub use keys::Key;
pub use model::EngineView;
