//! The Gimli permutation over a 384-bit state, with its contracts proved.
//!
//! The state is 48 bytes. `permute` reads them as three words `A`, `B`, `C` of four
//! little-endian 32-bit lanes, runs six big rounds of mixing steps, lane swaps and
//! round constants, and writes the words back.
pub mod codec;
pub mod mixing;
pub mod permutation;
pub mod schedule;

pub use permutation::{Gimli, GimliError};
