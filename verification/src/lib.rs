//! The resource economy of a real-time-strategy match: units that produce,
//! consume, store and build with two currencies, metal and energy, advanced
//! in discrete time steps.
//!
//! Every quantity is a fixed-point number, an `i64` that counts millionths of
//! a whole ([`fixed`]); floats come in as their bits ([`float`]). A match is a
//! [`game_state::GameState`] of [`unit::Unit`]s; [`economy`] states the rules
//! of a tick over the mathematical model of a match, and [`laws`] what follows
//! from them. [`loader`] reads unit templates out of definitions.

pub mod economy;
pub mod fixed;
pub mod float;
pub mod game_state;
pub mod laws;
mod lemmas;
pub mod loader;
pub mod unit;
pub mod world_params;
