//! Simulation core of a turn-based colony game played on a hexagonal grid.
//!
//! The crate owns the world state, decides which moves are legal, advances the
//! world one turn at a time and runs the expedition a hero walks to a quest.
//! Every function carries a contract and is verified against it; the few that
//! only hand a call on to an outside crate say so, and their contracts state
//! what is taken on trust of that crate.
//!
//! Real-valued game quantities (skill levels, thresholds, weights, rolls) are
//! counted in millionths of a whole, see [`quantity`].

pub mod game;
pub mod quantity;
pub mod random;
pub mod resource;
