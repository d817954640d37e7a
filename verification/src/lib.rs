//! Rules of an arcade avoidance game on a fixed-point grid.
//!
//! A player dodges bouncing balls, picks up health boxes and regenerates
//! while unhurt; the score is the time survived. The crate holds the rules
//! and leaves the window, the sounds and the files to its caller.
//!
//! - [`geometry`]: coordinates, units and distances.
//! - [`color`]: colours and the player's palette.
//! - [`ball`], [`health_box`], [`player`]: the entities.
//! - [`field`]: the entities of a tick taken together.
//! - [`spawner`]: random balls and health boxes.
//! - [`game`]: the screens, the tick and the high score.
//! - [`score`]: the stored form of the high score.

pub mod ball;
pub mod color;
pub mod field;
pub mod game;
pub mod geometry;
pub mod health_box;
pub mod player;
pub mod score;
pub mod spawner;
