//! Simulation core of a grid-based snake game.
//!
//! The library advances the snake on a 13x13 toroidal grid, enforces legal
//! turns, detects eating, grows the body, places apples on free cells,
//! tracks score and high score, and encodes the high score for durable
//! storage. Rendering, audio, window and input plumbing are outside
//! collaborators: the library only consumes resolved intents and elapsed
//! time, and exposes passive state for a host to draw.

pub mod apple;
pub mod chain;
pub mod direction;
pub mod game;
pub mod grid;
pub mod persist;
pub mod scheduler;
pub mod score;
