//! Contact physics for a wheel rolling over a terrain curve: the discrete
//! decisions of the simulation, proved correct.
//!
//! - [`locator`]: the hill-climbing search that finds the terrain point
//!   nearest to the wheel's center, driven by the caller's distance measure.
//! - [`sparks`]: how many sparks a sliding contact strikes and how long each
//!   one lives.
//! - [`pool`]: the pool that owns the sparks, ages them and removes expired
//!   ones.
//! - [`control`]: the nudges that held direction keys apply to the wheel.

pub mod control;
pub mod locator;
pub mod pool;
pub mod sparks;
