//! An in-memory service registry with verified state transitions.
//!
//! Services register over a one-time token, an admin accepts or disables
//! them, a periodic prober records their availability, and subscribers are
//! told about registrations and acceptances. The registry store and every
//! rule over it live here; network delivery and HTTP handling sit outside,
//! feeding the store plain values.

pub mod config;
pub mod credentials;
pub mod service;
pub mod store;
pub mod auth;
pub mod urls;
pub mod scheduler;
pub mod notifier;
