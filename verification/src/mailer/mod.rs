//! Email messages (addresses, bodies, attachments), send validation and
//! transports.

pub mod error;
pub mod address;
pub mod body;
pub mod attachment;
pub mod email;
pub mod transport;
pub mod smtp;
