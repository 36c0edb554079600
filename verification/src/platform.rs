//! The calls this library makes into outside crates for randomness, time and
//! digests. Each function below is trusted: its body is not verified, and its
//! contract states only what the called crate documents.

use vstd::prelude::*;

verus! {

/// The SHA-256 digest of a byte sequence. Named, not defined here: SHA-256
/// is a fixed function of its input, computed by the `ring` crate.
pub uninterp spec fn sha256_digest(data: Seq<u8>) -> Seq<u8>;

/// Calls `ring::digest::digest` with `ring::digest::SHA256`. Trusted claims:
/// the result is the SHA-256 digest of `data` (a function of `data` alone)
/// and it is 32 bytes long, as `ring` documents for SHA-256.
#[verifier::external_body]
pub(crate) fn sha256(data: &[u8]) -> (r: Vec<u8>)
    ensures
        r@ == sha256_digest(data@),
        r@.len() == 32,
{
    ring::digest::digest(&ring::digest::SHA256, data).as_ref().to_vec()
}

/// Calls `uuid::Uuid::new_v4` and returns the 128-bit value of the fresh
/// random UUID. Nothing is claimed of the value: it is random.
#[verifier::external_body]
pub(crate) fn fresh_uuid_value() -> (r: u128) {
    uuid::Uuid::new_v4().as_u128()
}

#[verifier::external_type_specification]
#[verifier::external_body]
pub struct ExUuidError(uuid::Error);

/// The 128-bit value of the UUID that a text spells, in any of the forms
/// `uuid::Uuid::parse_str` accepts; `None` for a text that spells none.
pub uninterp spec fn uuid_text_value(text: Seq<char>) -> Option<u128>;

/// Calls `uuid::Uuid::parse_str`. Trusted claim: it succeeds exactly when
/// the text spells a UUID, with that UUID's value, a function of the text
/// alone.
#[verifier::external_body]
pub(crate) fn parse_uuid(text: &str) -> (r: Result<u128, uuid::Error>)
    ensures
        match r {
            Ok(v) => uuid_text_value(text@) == Some(v),
            Err(_) => uuid_text_value(text@) is None,
        },
{
    match uuid::Uuid::parse_str(text) {
        Ok(u) => Ok(u.as_u128()),
        Err(e) => Err(e),
    }
}

/// Formats a UUID parse error with its `Display`. Nothing is claimed of the
/// text.
#[verifier::external_body]
pub(crate) fn uuid_error_text(e: &uuid::Error) -> (r: String) {
    format!("{}", e)
}

/// The lowercase hexadecimal digit of `d` (0 to 15): `0`-`9`, then `a`-`f`.
pub open spec fn hex_char(d: int) -> char {
    if d < 10 {
        (48 + d) as char
    } else {
        (87 + d) as char
    }
}

/// The `k`-th hexadecimal digit of `v`, counting from the most significant
/// (0 to 31).
pub open spec fn hex_nibble(v: u128, k: int) -> int {
    (v as int / vstd::arithmetic::power::pow(16, (31 - k) as nat)) % 16
}

/// How many hyphens stand before position `j` of a hyphenated UUID.
pub open spec fn hyphens_before(j: int) -> int {
    if j <= 8 {
        0
    } else if j <= 13 {
        1
    } else if j <= 18 {
        2
    } else if j <= 23 {
        3
    } else {
        4
    }
}

/// The hyphenated form of the UUID whose 128-bit value is `v`: its 32
/// lowercase hexadecimal digits, most significant first, in groups of 8,
/// 4, 4, 4 and 12 joined by hyphens.
pub open spec fn uuid_hyphenated(v: u128) -> Seq<char> {
    Seq::new(
        36,
        |j: int|
            if j == 8 || j == 13 || j == 18 || j == 23 {
                '-'
            } else {
                hex_char(hex_nibble(v, j - hyphens_before(j)))
            },
    )
}

/// Calls `uuid::Uuid::from_u128` and formats the UUID with its `Display`.
/// Trusted claim: the text is the hyphenated lowercase form of the value,
/// which the `uuid` crate writes from the value's big-endian bytes.
#[verifier::external_body]
pub(crate) fn uuid_text(v: u128) -> (r: String)
    ensures
        r@ == uuid_hyphenated(v),
{
    uuid::Uuid::from_u128(v).to_string()
}

/// Calls `chrono::Utc::now` and returns the current time as milliseconds
/// since the Unix epoch. Nothing is claimed of the value: it is the clock.
#[verifier::external_body]
pub(crate) fn now_millis() -> (r: i64) {
    chrono::Utc::now().timestamp_millis()
}

#[verifier::external_type_specification]
#[verifier::external_body]
pub struct ExInstant(std::time::Instant);

/// Calls `std::time::Instant::now`. Nothing is claimed: it is the clock.
#[verifier::external_body]
pub(crate) fn instant_now() -> (r: std::time::Instant) {
    std::time::Instant::now()
}

/// Calls `Instant::elapsed` and returns the whole nanoseconds since
/// `start`. Nothing is claimed: it is the clock.
#[verifier::external_body]
pub(crate) fn nanos_since(start: &std::time::Instant) -> (r: u128) {
    start.elapsed().as_nanos()
}

/// The whole microseconds since `start`, cut to 64 bits.
pub(crate) fn micros_since(start: &std::time::Instant) -> (r: u64) {
    let n = nanos_since(start);
    #[verifier::truncate]
    let micros = (n / 1000) as u64;
    micros
}

} // verus!
