//! Simulation core of an endless runner: the platform path ahead of the
//! player, the player's locomotion and the theme that skins the world.
//!
//! Nothing here touches a float. Lengths, speeds, factors and probabilities
//! are integers counted in thousandths, time is counted in microseconds, and
//! every rounding is a truncation toward zero.

pub mod fixed;
pub mod vector;
pub mod timer;
pub mod random;
pub mod game;
pub mod theme;
pub mod platforms;
pub mod physics;
pub mod scan;
pub mod player;
pub mod world;
pub mod skybox;
pub mod terrain;
