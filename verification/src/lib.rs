//! Turn-structured dice encounters: dice pools and the powers that reshape
//! them, outcome previews, threshold evaluation, damage, and the phase
//! sequencer that decides when each of these runs.

pub mod actions;
pub mod averager;
pub mod combat;
pub mod dice_pools;
pub mod encounter;
pub mod locations;
pub mod mission;
pub mod participants;
pub mod powers;
pub mod random;
pub mod sequencing;
pub mod simulation;
pub mod state;
pub mod text;
