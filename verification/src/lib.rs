//! A compact, validated encoder/decoder for DNA sequences.
//!
//! A [`Nuc`] is one of the four nucleotide bases; a [`PackedDna`] stores an
//! ordered run of them at two bits per base, with lossless random-access
//! decode and fail-fast, case-insensitive parsing from text.

pub mod nuc;
pub mod packed;

pub use nuc::Nuc;
pub use nuc::ParseNucError;
pub use packed::PackedDna;
