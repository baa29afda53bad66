//! Core of an addressable LED-matrix driver: an RGB pixel buffer with
//! serpentine physical addressing, the bit-exact PIO timing program and clock
//! configuration for the WS2812 one-wire protocol, a family of animation
//! effects, and the cooperative scheduler that alternates rendering against an
//! effect-switch channel.

pub mod cake;
pub mod game_of_life;
pub mod matrix_displayer;
pub mod metaballs;
pub mod rgb8;
pub mod rng;
pub mod single;
pub mod wheel;
pub mod wrap;
pub mod ws2812;
