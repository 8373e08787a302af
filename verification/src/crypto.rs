//! Cryptographic building blocks: AEAD, identities, X3DH and the double ratchet.

pub mod primitives;
pub mod aead;
pub mod identity;
pub mod x3dh;
pub mod ratchet;
