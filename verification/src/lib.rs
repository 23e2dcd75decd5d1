//! The rules of a small vertical space shooter: the phases of a session,
//! what a frame of play decides, how strikes are scored, how the best score
//! is kept and recorded, and the sprite sheets and screen texts of the game.
//! Drawing, sound, input, timing, the random sizes and positions of enemies
//! and every computation in floating point belong to the program around it.
pub mod combat;
pub mod decimal;
pub mod game;
mod rng;
pub mod sprites;
pub mod text;
