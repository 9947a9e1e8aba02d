//! Authoritative simulation core of a top-down battle-royale ship game.
//!
//! The library owns the rules: how ships move and fight, how the zone
//! shrinks, how a match goes through its phases, who waits for a match and
//! who is put into one. It reads no socket and waits on no timer; the server
//! around it hands it what has arrived and sends what it returns.
//!
//! Every quantity that the game measures (lengths, speeds, angles,
//! durations, health) is a signed fixed-point number, see [`fixed`]; every
//! identifier is a 128-bit number, see [`ids`].
//!
//! * Kernels: [`fixed`], [`physics`], [`combat`], [`zone`], [`rng`].
//! * A match: [`player`], [`match_state`], the steps of a tick in
//!   [`tick_physics`], [`tick_combat`] and [`tick_zone`], and the match
//!   itself in [`game_match`], [`game_tick`] and [`game_step`];
//!   [`snapshot`] decides when the state is sent.
//! * Around the matches: [`queue`], [`service`], [`registry`], [`session`],
//!   [`protocol`], [`auth`], [`time`].
//! * What is proved of all this beyond the contracts of the functions:
//!   [`laws_consistency`], [`laws_combat`], [`laws_zone`], [`laws_match`],
//!   [`laws_queue`].

pub mod auth;
pub mod combat;
pub mod fixed;
pub mod game_match;
pub mod game_step;
pub mod game_tick;
pub mod ids;
pub mod laws_combat;
pub mod laws_consistency;
pub mod laws_match;
pub mod laws_queue;
pub mod laws_zone;
pub mod match_state;
pub mod physics;
pub mod player;
pub mod protocol;
pub mod queue;
pub mod registry;
pub mod rng;
pub mod service;
pub mod session;
pub mod snapshot;
pub mod tick_combat;
pub mod tick_physics;
pub mod tick_zone;
pub mod time;
pub mod zone;
