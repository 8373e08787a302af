//! The anonymous transport: onion framing and encryption over one-hop
//! circuits, padding, bootstrap data and the decisions of its services.

pub mod padding;
pub mod circuit;
pub mod encoder;
pub mod decoder;
pub mod bootstrap;
pub mod indicator;
pub mod config;
pub mod cover;
pub mod jitter;
pub mod fetcher;
pub mod tor;
pub mod shadow;
pub mod pool;
pub mod relay_client;
pub mod service;
