//! Silent threshold encryption over the BLS12-381 pairing.
//!
//! Universal parameters are powers of a trapdoor in both source groups.
//! Each party derives its public key on its own, from its index and either the
//! universal parameters or precomputed Lagrange powers. The aggregate key
//! combines every public key, and a constant-size ciphertext can then be opened
//! by a quorum of parties.
pub mod codec;
pub mod domain;
pub mod encryption;
pub mod group;
pub mod kzg;
pub mod scalar;
pub mod setup;
