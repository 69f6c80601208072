//! A Yarrow-style pseudorandom generator: an entropy pool that is diffused
//! through SHA3-512, a seed that is perturbed behind a time gate, and the
//! values drawn from that state.

pub mod bytes;
pub mod clock;
pub mod hash;
pub mod model;
pub mod generator;
pub mod shuffle;
pub mod laws;
