//! FRACT: a sponge hash over a four-word state, mixed by a coupled
//! logistic-tent lattice, with 256-bit and 512-bit digests.
//!
//! The code is verified with Verus against a mathematical model:
//!
//! - [`chaos`] holds the logistic-tent map on 64-bit words;
//! - [`lattice`] holds the round function and the permutation;
//! - [`words`] converts between words and little-endian bytes;
//! - [`sponge`] says what absorbing, padding and squeezing mean, and proves
//!   the laws of the hash: chunk invariance, mode consistency, fixed lengths;
//! - [`engine`] is the incremental hasher, [`Fract`];
//! - [`hexfmt`] renders digests in hexadecimal;
//! - [`checksum`] writes and reads the lines of checksum files.
//!
//! Two calls leave the verified code, each behind a function whose contract
//! is taken on trust: the hexadecimal encoder of the `hex` crate in
//! [`hexfmt`], and the white-space test of the standard library in
//! [`checksum`].

pub mod chaos;
pub mod checksum;
pub mod engine;
pub mod hexfmt;
pub mod lattice;
pub mod sponge;
pub mod words;

pub use chaos::hltm;
pub use engine::{Fract, FractError};
