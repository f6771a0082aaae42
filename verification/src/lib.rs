//! Simulation core of an idle clicker game: a directed dependency graph of
//! nodes, each carrying a progress timer and a blocking relationship, where
//! clicking a ready node produces currency and probabilistically spawns new
//! nodes nearby.
//!
//! All quantities are integers: time is measured in milliseconds, and world
//! positions in milli-units (one thousandth of a world unit), so that every
//! rule of the game is exact arithmetic.

pub mod blocking;
pub mod clicks;
pub mod events;
pub mod graph;
pub mod pos;
pub mod poisson;
pub mod rng;
pub mod saves;
pub mod spawner;
pub mod tick;
pub mod timer;
pub mod trig;
