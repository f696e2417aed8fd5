//! The hash: the permutation, its three layers, and the sponge around it.

pub mod gadgets;
pub mod sponge;
pub mod zelbet;
