//! Session attribute bag, flash messages, stores and the session-id cookie.

pub mod map;
pub mod session;
pub mod flash_codec;
pub mod flash;
pub mod error;
pub mod store;
pub mod cookie;
pub mod middleware;
