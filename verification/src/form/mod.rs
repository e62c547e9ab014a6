//! HTML escaping, URL-encoded form bodies and HTML forms with CSRF.

pub mod error;
pub mod escape;
pub mod parse;
pub mod form;
