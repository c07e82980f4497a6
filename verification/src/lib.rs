//! Core of a device-location check-in service: an authenticated in-memory
//! store of location reports, keyed by a durable secret key, together with
//! the token/permission scheme that gates every operation on it.
//!
//! `storage` holds the store and its contracts, `service` the RPC-facing
//! layer that authenticates and authorizes every call, `laws` the proved
//! guarantees that tie the operations together.

pub mod assoc;
pub mod laws;
pub mod messages;
pub mod service;
pub mod storage;
pub mod time;
