//! A centralized mutual-exclusion service: clients request exclusive access
//! to a single shared critical region over a 5-byte wire protocol, and one
//! coordinator grants access in first-in-first-out order.

pub mod arbiter;
pub mod channel;
pub mod client;
pub mod console;
pub mod handler;
pub mod coordinator;
pub mod metrics;
pub mod request;
