//! Serenade web-framework components: sessions and flash messages, the
//! session login bridge, HTML escaping and form decoding, mail messages,
//! admin CRUD descriptors, HTTP routing primitives and cache records.

use vstd::prelude::*;

pub mod admin;
pub mod cache;
pub mod form;
pub mod http;
pub mod keyed;
pub mod mailer;
pub mod sandbox;
pub mod security;
pub mod session;
pub mod text;

verus! {

/// Crate version for diagnostics.
pub fn version() -> (v: &'static str)
    ensures
        v@.len() > 0,
{
    let v = "0.1.0";
    proof {
        reveal_strlit("0.1.0");
    }
    v
}

} // verus!
