//! The connected client.

pub mod auth;
pub mod connection;
pub mod decoding;
pub mod security;
pub mod startup;
pub mod traffic;
