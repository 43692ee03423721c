//! The client side of the RFB protocol (VNC), without its transport.

pub mod biguint;
pub mod client;
pub mod error;
pub mod types;
pub mod wire;
