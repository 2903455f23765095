//! Core simulation of a streamed, combustible particle world: chunk
//! streaming around the player, content placement from a density field,
//! a fire front that spreads through clouds of gas orbs, and chained
//! explosions of explosive orbs.
//!
//! The library is pure: it takes positions, density samples, random draws
//! and the clock as plain values and answers with the state changes that a
//! host engine has to apply.
//!
//! All quantities are whole numbers. Positions and radii are thousandths of
//! a world unit, densities are millionths, draws are thousandths of one,
//! times are milliseconds of the simulation clock, and entities are named
//! by their 64 bits.

pub mod geometry;
pub mod meteorites;
pub mod red_gas;
pub mod space;
pub mod spatial;
