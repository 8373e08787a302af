//! The client core: the onion transport's logic, local persistence, the
//! identity store and the session and transfer bookkeeping.

pub mod onion;
pub mod persistence;
pub mod identity_store;
pub mod crypto;
pub mod storage;
pub mod session;
pub mod api;
pub mod transfer;
pub mod runtime;
pub mod signaling_json;
