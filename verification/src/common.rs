//! Shared types, errors and wire envelopes.

pub mod error;
pub mod envelope;
pub mod byte_util;
pub mod assoc;
pub mod text;
pub mod types;
pub mod config;
