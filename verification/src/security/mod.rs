//! Users, security tokens, the session login bridge and password hashing.

pub mod identity;
pub mod error;
pub mod user;
pub mod session_bridge;
pub mod password;
pub mod firewall;
pub mod csrf;
