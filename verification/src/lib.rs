//! MinHash band signatures for text.
//!
//! A text is cut into character n-grams ("shingles"), each reduced to a
//! 64-bit hash. A seeded stream supplies the parameters of universal hash
//! functions; each band of a signature folds the minima of a few such
//! functions over the shingle set into one 64-bit value. Two texts agree on
//! a band about as often as their shingle sets overlap.

pub mod binding;
pub mod error;
pub mod minhasher;
pub mod replicate;
pub mod shingle;
pub mod signature;
pub mod stream;
