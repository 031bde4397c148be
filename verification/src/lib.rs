//! Tetris on a matrix of addressable lights, played over Bluetooth Low Energy.
//!
//! - [`board`], [`rng`], [`period`] and [`game`]: the game, its pieces and its rules.
//! - [`session`]: a game played over one connection, by the clock and by commands.
//! - [`state`], [`render`], [`leds`] and [`pulse`]: the picture of a game, the lights
//!   that show it and the waveform that sets them.
//! - [`advert`] and [`status`]: how the device is found and how it shows that it was.
pub mod advert;
pub mod board;
mod clock;
mod engine;
pub mod game;
pub mod leds;
pub mod period;
pub mod pulse;
pub mod render;
pub mod rng;
pub mod session;
pub mod state;
pub mod status;
