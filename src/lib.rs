//! The Poseidon permutation over the scalar field of BN254.
//!
//! Field elements are held as canonical little-endian limbs; their arithmetic
//! is delegated to `ark-ff`/`ark-bn254`, and every step of the round schedule
//! is stated and proved over natural numbers modulo the field's prime.
pub mod constants;
pub mod field;
pub mod laws;
pub mod poseidon;
