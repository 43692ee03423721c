//! The cryptography behind the security types.

pub mod ard;
pub mod des;
