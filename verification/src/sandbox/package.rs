//! Package-run inputs, the cache root and downloaded package checks.

use vstd::prelude::*;

use crate::text::{push_chars, push_str, u64_to_decimal};

verus! {

/// Inputs for running a command of a registry package.
pub struct PackageRun<'a> {
    /// Bytes fed to guest stdin.
    pub stdin_bytes: &'a [u8],
    /// Package and module cache root.
    pub cache_root: &'a str,
    /// Registry URL (fetched with `Accept: application/webc`).
    pub package_url: &'a str,
    /// File name under `downloads/` for the cached package.
    pub cache_name: &'a str,
    /// Command name inside the package.
    pub command: &'a str,
    /// Arguments passed to the command.
    pub args: Vec<String>,
}

/// Cache root: the override when given, else `.wasmer`.
pub fn wasmer_cache_root_from(override_path: Option<String>) -> (r: String)
    ensures
        match override_path {
            Some(p) => r@ == p@,
            None => r@ == ".wasmer"@,
        },
{
    match override_path {
        Some(p) => p,
        None => ".wasmer".to_owned(),
    }
}

/// Smallest plausible size of a downloaded package.
pub const MIN_WEBC_BYTES: usize = 1024;

/// Message for a download too small to be a package.
pub open spec fn small_webc_text(n: nat) -> Seq<char> {
    "Wasmer package download looks too small ("@ + crate::text::decimal(n)
        + " bytes); check Accept header"@
}

/// Rejects a download smaller than [`MIN_WEBC_BYTES`] (an error page rather
/// than a package).
pub fn ensure_webc_payload(body: &[u8]) -> (r: Result<(), String>)
    ensures
        match r {
            Ok(()) => body@.len() >= MIN_WEBC_BYTES,
            Err(m) => body@.len() < MIN_WEBC_BYTES && m@ == small_webc_text(body@.len()),
        },
{
    if body.len() < MIN_WEBC_BYTES {
        let mut m = String::new();
        push_str(&mut m, "Wasmer package download looks too small (");
        let digits = u64_to_decimal(body.len() as u64);
        push_chars(&mut m, &digits);
        push_str(&mut m, " bytes); check Accept header");
        return Err(m);
    }
    Ok(())
}

} // verus!
