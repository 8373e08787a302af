//! Verified core of the Cypher anonymous P2P messenger: wire formats, key
//! agreement, double ratchet, onion framing and at-rest encryption.

pub mod common;
pub mod crypto;
pub mod client;
pub mod desktop;
