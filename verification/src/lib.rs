//! A fully indexable dictionary: a compressed, append-only bit vector that
//! answers `rank` (how many bits equal to `b` lie before a position) and
//! `select` (where the `(r + 1)`-th bit equal to `b` lies).
//!
//! `BitVector` is the dictionary, `FID` the capability it offers, `BitArray`
//! the packed bit container below it. Every function is verified against a
//! contract over the plain sequence of bits.

pub mod bit_array;
pub mod bit_vector;
pub mod bits;
pub mod codec;
pub mod fid;
pub mod tables;

pub use bit_array::BitArray;
pub use bit_vector::BitVector;
pub use fid::FID;
