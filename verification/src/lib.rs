//! Reinforced Concrete ("Zelbet") hashing over the BLS12-381 scalar field.

pub mod composer;
pub mod constants;
pub mod field;
pub mod hashing;
pub mod wide;
