//! Delivery to other apps: activate the target, wait until it offers the capability, then hand
//! over a request whose receipt is the same however often it is sent.
pub mod activator;
pub mod delivery;
pub mod draft;
pub mod endpoint;
pub mod operation_history;
pub mod receipts;
pub mod transport;
pub mod types;
