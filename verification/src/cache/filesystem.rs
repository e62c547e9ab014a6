//! File names and records of the filesystem cache adapter.
//!
//! A record is the magic `SCFS`, a version byte (1), the expiry in
//! milliseconds since the Unix epoch as 8 little-endian bytes (0: never),
//! then the payload.

use vstd::prelude::*;

use crate::session::cookie::{hex_encode, hex_of};
use crate::text::{chars_of, contains_char, push_str, str_eq, utf8_bytes};

verus! {

/// Cache pool failure.
#[derive(Clone, Debug, PartialEq, Eq)]
pub enum CacheError {
    /// The pool's storage failed or is misconfigured.
    Pool {
        /// Reason text.
        message: String,
    },
    /// The key cannot name a cache entry.
    InvalidKey {
        /// The refused key.
        key: String,
    },
}

/// Text of an error.
pub open spec fn cache_error_text(e: CacheError) -> Seq<char> {
    match e {
        CacheError::Pool { message } => "cache pool: "@ + message@,
        CacheError::InvalidKey { key } => "invalid cache key \""@ + key@ + "\": a key must not be empty"@,
    }
}

impl CacheError {
    /// Human-readable message.
    pub fn message(&self) -> (r: String)
        ensures
            r@ == cache_error_text(*self),
    {
        let mut out = String::new();
        match self {
            CacheError::Pool { message } => {
                push_str(&mut out, "cache pool: ");
                push_str(&mut out, message.as_str());
            },
            CacheError::InvalidKey { key } => {
                push_str(&mut out, "invalid cache key \"");
                push_str(&mut out, key.as_str());
                push_str(&mut out, "\": a key must not be empty");
            },
        }
        out
    }
}

/// Where a filesystem pool keeps its files: a directory and a subdirectory
/// name.
#[derive(Clone, Debug)]
pub struct FilesystemAdapterConfig {
    directory: String,
    prefix: String,
}

impl FilesystemAdapterConfig {
    pub closed spec fn directory_view(&self) -> Seq<char> {
        self.directory@
    }

    pub closed spec fn prefix_view(&self) -> Seq<char> {
        self.prefix@
    }

    /// Items under `directory`, subdirectory `serenade`.
    pub fn new(directory: &str) -> (c: FilesystemAdapterConfig)
        ensures
            c.directory_view() == directory@,
            c.prefix_view() == "serenade"@,
    {
        FilesystemAdapterConfig { directory: directory.to_owned(), prefix: "serenade".to_owned() }
    }

    /// Sets the subdirectory name (checked when the pool opens).
    pub fn with_prefix(self, prefix: &str) -> (c: FilesystemAdapterConfig)
        ensures
            c.directory_view() == self.directory_view(),
            c.prefix_view() == prefix@,
    {
        FilesystemAdapterConfig { directory: self.directory, prefix: prefix.to_owned() }
    }

    /// Cache root directory.
    pub fn directory(&self) -> (r: &str)
        ensures
            r@ == self.directory_view(),
    {
        self.directory.as_str()
    }

    /// Subdirectory name.
    pub fn prefix(&self) -> (r: &str)
        ensures
            r@ == self.prefix_view(),
    {
        self.prefix.as_str()
    }
}

/// A prefix names a single directory: non-empty, without `/` or `\`, and
/// neither `.` nor `..`.
pub open spec fn single_segment(p: Seq<char>) -> bool {
    p.len() > 0 && !p.contains('/') && !p.contains('\\') && p != "."@ && p != ".."@
}

pub open spec fn bad_prefix_text() -> Seq<char> {
    "filesystem cache prefix must be a single non-empty path segment"@
}

/// Accepts a prefix that names a single directory.
pub fn validate_prefix(prefix: &str) -> (r: Result<(), CacheError>)
    ensures
        match r {
            Ok(()) => single_segment(prefix@),
            Err(e) => !single_segment(prefix@) && (e matches CacheError::Pool { message }
                && message@ == bad_prefix_text()),
        },
{
    let v = chars_of(prefix);
    if v.len() == 0 || contains_char(&v, '/') || contains_char(&v, '\\') || str_eq(prefix, ".")
        || str_eq(prefix, "..") {
        return Err(
            CacheError::Pool {
                message: "filesystem cache prefix must be a single non-empty path segment".to_owned(),
            },
        );
    }
    Ok(())
}

/// File name of the entry for `key`: the lower-case hex of its UTF-8 bytes,
/// then `.cache`.
pub open spec fn entry_file_name(key: Seq<char>) -> Seq<char> {
    hex_of(vstd::utf8::encode_utf8(key)) + ".cache"@
}

/// Lower-case hex of the UTF-8 bytes of `key`.
pub fn hex_key(key: &str) -> (r: String)
    ensures
        r@ == hex_of(vstd::utf8::encode_utf8(key@)),
{
    let bytes = utf8_bytes(key);
    hex_encode(bytes.as_slice())
}

/// File name of the entry for `key`.
pub fn entry_file(key: &str) -> (r: String)
    ensures
        r@ == entry_file_name(key@),
{
    let mut r = hex_key(key);
    push_str(&mut r, ".cache");
    r
}

/// File name of the entry for `key`; the empty key names no entry and is
/// refused with [`CacheError::InvalidKey`].
pub fn checked_entry_file(key: &str) -> (r: Result<String, CacheError>)
    ensures
        match r {
            Ok(name) => key@.len() > 0 && name@ == entry_file_name(key@),
            Err(e) => key@.len() == 0 && (e matches CacheError::InvalidKey { key: k } && k@ == key@),
        },
{
    if key.is_empty() {
        return Err(CacheError::InvalidKey { key: key.to_owned() });
    }
    Ok(entry_file(key))
}

/// The 8 little-endian bytes of `n`.
pub open spec fn le8(n: u64) -> Seq<u8> {
    seq![
        (n % 0x100) as u8,
        ((n / 0x100) % 0x100) as u8,
        ((n / 0x1_0000) % 0x100) as u8,
        ((n / 0x100_0000) % 0x100) as u8,
        ((n / 0x1_0000_0000) % 0x100) as u8,
        ((n / 0x100_0000_0000) % 0x100) as u8,
        ((n / 0x1_0000_0000_0000) % 0x100) as u8,
        ((n / 0x100_0000_0000_0000) % 0x100) as u8,
    ]
}

/// Value of 8 little-endian bytes.
pub open spec fn le_value(b: Seq<u8>) -> int {
    b[0] + 0x100 * b[1] + 0x1_0000 * b[2] + 0x100_0000 * b[3] + 0x1_0000_0000 * b[4]
        + 0x100_0000_0000 * b[5] + 0x1_0000_0000_0000 * b[6] + 0x100_0000_0000_0000 * b[7]
}

/// Header of a record: magic, version, expiry.
pub open spec fn record_header(expires: u64) -> Seq<u8> {
    seq![0x53u8, 0x43u8, 0x46u8, 0x53u8, 1u8] + le8(expires)
}

/// A record holding `payload` that expires at `expires`.
pub open spec fn record(expires: u64, payload: Seq<u8>) -> Seq<u8> {
    record_header(expires) + payload
}

/// Expiry and payload of a record; `None` for bytes that are not one.
pub open spec fn parse_record_spec(b: Seq<u8>) -> Option<(int, Seq<u8>)> {
    if b.len() >= 13 && b[0] == 0x53 && b[1] == 0x43 && b[2] == 0x46 && b[3] == 0x53 && b[4] == 1 {
        Some((le_value(b.subrange(5, 13)), b.skip(13)))
    } else {
        None
    }
}

/// The little-endian bytes of a number read back as that number.
pub proof fn lemma_le_roundtrip(n: u64)
    ensures
        le_value(le8(n)) == n,
{
    let b = le8(n);
    assert(n == (n % 0x100) + 0x100 * ((n / 0x100) % 0x100) + 0x1_0000 * ((n / 0x1_0000) % 0x100)
        + 0x100_0000 * ((n / 0x100_0000) % 0x100) + 0x1_0000_0000 * ((n / 0x1_0000_0000) % 0x100)
        + 0x100_0000_0000 * ((n / 0x100_0000_0000) % 0x100) + 0x1_0000_0000_0000 * ((n
        / 0x1_0000_0000_0000) % 0x100) + 0x100_0000_0000_0000 * ((n / 0x100_0000_0000_0000)
        % 0x100)) by (bit_vector);
}

/// Reading a record back gives the expiry and payload it was written with.
pub proof fn lemma_record_roundtrip(expires: u64, payload: Seq<u8>)
    ensures
        parse_record_spec(record(expires, payload)) == Some((expires as int, payload)),
{
    let r = record(expires, payload);
    lemma_le_roundtrip(expires);
    assert(r.subrange(5, 13) =~= le8(expires));
    assert(r.skip(13) =~= payload);
}

/// Record bytes for `payload` expiring at `expires_unix_ms` (0: never).
pub fn encode_record(expires_unix_ms: u64, payload: &[u8]) -> (out: Vec<u8>)
    ensures
        out@ == record(expires_unix_ms, payload@),
{
    let mut out: Vec<u8> = Vec::new();
    out.push(0x53);
    out.push(0x43);
    out.push(0x46);
    out.push(0x53);
    out.push(1);
    let mut x: u64 = expires_unix_ms;
    out.push((x % 0x100) as u8);
    x = x / 0x100;
    out.push((x % 0x100) as u8);
    x = x / 0x100;
    out.push((x % 0x100) as u8);
    x = x / 0x100;
    out.push((x % 0x100) as u8);
    x = x / 0x100;
    out.push((x % 0x100) as u8);
    x = x / 0x100;
    out.push((x % 0x100) as u8);
    x = x / 0x100;
    out.push((x % 0x100) as u8);
    x = x / 0x100;
    out.push((x % 0x100) as u8);
    proof {
        let n = expires_unix_ms;
        assert(n / 0x100 / 0x100 == n / 0x1_0000) by (bit_vector);
        assert(n / 0x100 / 0x100 / 0x100 == n / 0x100_0000) by (bit_vector);
        assert(n / 0x100 / 0x100 / 0x100 / 0x100 == n / 0x1_0000_0000) by (bit_vector);
        assert(n / 0x100 / 0x100 / 0x100 / 0x100 / 0x100 == n / 0x100_0000_0000) by (bit_vector);
        assert(n / 0x100 / 0x100 / 0x100 / 0x100 / 0x100 / 0x100 == n / 0x1_0000_0000_0000)
            by (bit_vector);
        assert(n / 0x100 / 0x100 / 0x100 / 0x100 / 0x100 / 0x100 / 0x100 == n
            / 0x100_0000_0000_0000) by (bit_vector);
        assert(out@ =~= record_header(expires_unix_ms));
    }
    let ghost head = out@;
    let mut i: usize = 0;
    while i < payload.len()
        invariant
            i <= payload.len(),
            out@ == head + payload@.take(i as int),
        decreases payload.len() - i,
    {
        out.push(payload[i]);
        assert(payload@.take(i as int + 1) =~= payload@.take(i as int).push(payload@[i as int]));
        i = i + 1;
    }
    assert(payload@.take(payload.len() as int) =~= payload@);
    out
}

/// Expiry and payload of a record; `None` when the bytes are too short or
/// the magic or version differ.
pub fn parse_record(bytes: &[u8]) -> (r: Option<(u64, Vec<u8>)>)
    ensures
        match r {
            Some(p) => parse_record_spec(bytes@) == Some((p.0 as int, p.1@)),
            None => parse_record_spec(bytes@) is None,
        },
{
    if bytes.len() < 13 || bytes[0] != 0x53 || bytes[1] != 0x43 || bytes[2] != 0x46 || bytes[3]
        != 0x53 || bytes[4] != 1 {
        return None;
    }
    let expires: u64 = bytes[5] as u64 + 0x100 * (bytes[6] as u64) + 0x1_0000 * (bytes[7] as u64)
        + 0x100_0000 * (bytes[8] as u64) + 0x1_0000_0000 * (bytes[9] as u64) + 0x100_0000_0000 * (
    bytes[10] as u64) + 0x1_0000_0000_0000 * (bytes[11] as u64) + 0x100_0000_0000_0000 * (
    bytes[12] as u64);
    let mut payload: Vec<u8> = Vec::new();
    let mut i: usize = 13;
    assert(bytes@.subrange(13, 13) =~= Seq::<u8>::empty());
    while i < bytes.len()
        invariant
            13 <= i <= bytes.len(),
            payload@ == bytes@.subrange(13, i as int),
        decreases bytes.len() - i,
    {
        payload.push(bytes[i]);
        assert(bytes@.subrange(13, i as int + 1) =~= bytes@.subrange(13, i as int).push(
            bytes@[i as int],
        ));
        i = i + 1;
    }
    assert(payload@ =~= bytes@.skip(13));
    Some((expires, payload))
}

/// An entry expiring at `expires_unix_ms` has expired at `now_ms` (0 never
/// expires).
pub open spec fn expired(expires_unix_ms: u64, now_ms: u64) -> bool {
    expires_unix_ms != 0 && now_ms >= expires_unix_ms
}

/// Whether the entry has expired at `now_ms`.
pub fn is_expired_at(expires_unix_ms: u64, now_ms: u64) -> (r: bool)
    ensures
        r == expired(expires_unix_ms, now_ms),
{
    expires_unix_ms != 0 && now_ms >= expires_unix_ms
}

/// Expiry stored for an item whose deadline, read in milliseconds, is
/// `expires_ms` while the clock reads `now_ms`: a deadline that floors to
/// now or earlier is kept one millisecond in the future, so an unexpired
/// item is never written as expired.
pub fn expiry_to_persist(now_ms: u64, expires_ms: u64) -> (r: u64)
    ensures
        r == if expires_ms <= now_ms {
            if now_ms == u64::MAX {
                now_ms
            } else {
                (now_ms + 1) as u64
            }
        } else {
            expires_ms
        },
{
    if expires_ms <= now_ms {
        now_ms.saturating_add(1)
    } else {
        expires_ms
    }
}

/// Expiry to write for an item saved at `now_ms` with time to live `ttl_ms`
/// (milliseconds): `Some(0)` (never expires) without one, `None` (the item is
/// already gone: delete it) for a zero time to live, and otherwise the
/// deadline `now_ms + ttl_ms` (saturating) as [`expiry_to_persist`] keeps it.
pub fn persist_expiry(now_ms: u64, ttl_ms: Option<u64>) -> (r: Option<u64>)
    ensures
        match ttl_ms {
            None => r == Some(0u64),
            Some(t) => if t == 0 {
                r is None
            } else {
                r == Some(
                    if now_ms + t > u64::MAX {
                        u64::MAX
                    } else {
                        (now_ms + t) as u64
                    },
                )
            },
        },
{
    match ttl_ms {
        None => Some(0),
        Some(t) => if t == 0 {
            None
        } else {
            Some(expiry_to_persist(now_ms, now_ms.saturating_add(t)))
        },
    }
}

/// What a stored record means at a given time.
#[derive(Debug)]
pub enum StoredEntry {
    /// Not a record: the file should be removed.
    Corrupt,
    /// Expired: the file should be removed.
    Expired,
    /// Current: the payload and its expiry.
    Live {
        expires_unix_ms: u64,
        payload: Vec<u8>,
    },
}

/// Reads stored bytes at `now_ms`.
pub fn classify_record(bytes: &[u8], now_ms: u64) -> (r: StoredEntry)
    ensures
        match parse_record_spec(bytes@) {
            None => r is Corrupt,
            Some(p) => if expired(p.0 as u64, now_ms) {
                r is Expired
            } else {
                r matches StoredEntry::Live { expires_unix_ms, payload } && expires_unix_ms == p.0
                    && payload@ == p.1
            },
        },
{
    match parse_record(bytes) {
        None => StoredEntry::Corrupt,
        Some((expires_unix_ms, payload)) => if is_expired_at(expires_unix_ms, now_ms) {
            StoredEntry::Expired
        } else {
            StoredEntry::Live { expires_unix_ms, payload }
        },
    }
}

} // verus!
