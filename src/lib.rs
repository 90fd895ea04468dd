//! Checkout and association engine for a single-location service business:
//! payments, bookings, type-tagged links between entities, and the cached
//! account snapshot that every successful mutation refreshes.

pub mod credentials;
pub mod engine;
pub mod error;
pub mod link;
pub mod model;
pub mod outcome;
pub mod protocol;
pub mod store;
