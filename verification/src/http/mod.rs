//! Framework-agnostic HTTP primitives: methods, headers, requests,
//! responses, errors and routing.

pub mod error;
pub mod headers;
pub mod method;
pub mod response;
pub mod request;
pub mod attributes;
pub mod routing;
pub mod kernel;
