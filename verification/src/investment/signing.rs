//! Request signing (HMAC-SHA256, lowercase hex), the clock, and the signed
//! WebSocket auth query.
use vstd::prelude::*;
use hmac::{Hmac, Mac};
use sha2::Sha256;
use std::time::{Duration, SystemTime, UNIX_EPOCH};
use crate::num::{dec, u64_to_string};
use crate::text::owned;

verus! {

#[verifier::external_type_specification]
#[verifier::external_body]
pub struct ExSystemTime(SystemTime);

/// HMAC-SHA256 tag of `msg` under `key` (32 bytes).
pub uninterp spec fn hmac_sha256(key: Seq<u8>, msg: Seq<u8>) -> Seq<u8>;

/// Lowercase hexadecimal digit of a value below 16.
pub open spec fn hex_digit(n: int) -> char {
    if n < 10 {
        (48 + n) as char
    } else {
        (87 + n) as char
    }
}

/// Two lowercase hex digits per byte, most significant nibble first.
pub open spec fn hex_lower(bytes: Seq<u8>) -> Seq<char>
    decreases bytes.len(),
{
    if bytes.len() == 0 {
        Seq::empty()
    } else {
        hex_lower(bytes.drop_last()) + seq![
            hex_digit(bytes.last() as int / 16),
            hex_digit(bytes.last() as int % 16),
        ]
    }
}

/// `Hmac::<Sha256>::new_from_slice(key)`, `update(msg)`, `finalize()`
/// (hmac, sha2): the tag is the HMAC-SHA256 of the message, 32 bytes long.
/// A key of any length is accepted, so construction cannot fail.
#[verifier::external_body]
fn hmac_sha256_tag(key: &[u8], msg: &[u8]) -> (r: Vec<u8>)
    ensures
        r@ == hmac_sha256(key@, msg@),
        r@.len() == 32,
{
    let mut mac = Hmac::<Sha256>::new_from_slice(key).expect("HMAC can take key of any size");
    mac.update(msg);
    mac.finalize().into_bytes().to_vec()
}

/// `hex::encode` (hex): lowercase hexadecimal, two digits per byte.
#[verifier::external_body]
fn hex_encode(bytes: &[u8]) -> (r: String)
    ensures
        r@ == hex_lower(bytes@),
{
    hex::encode(bytes)
}

/// HMAC-SHA256 signature of `msg` with `secret`, as lowercase hex.
pub fn sign(secret: &str, msg: &str) -> (r: String)
    ensures
        r@ == hex_lower(hmac_sha256(vstd::utf8::encode_utf8(secret@), vstd::utf8::encode_utf8(msg@))),
        r@.len() == 64,
{
    let tag = hmac_sha256_tag(secret.as_bytes(), msg.as_bytes());
    proof {
        lemma_hex_len(tag@);
    }
    hex_encode(tag.as_slice())
}

proof fn lemma_hex_len(b: Seq<u8>)
    ensures
        hex_lower(b).len() == 2 * b.len(),
    decreases b.len(),
{
    if b.len() > 0 {
        lemma_hex_len(b.drop_last());
    }
}

/// `SystemTime::now` (std).
#[verifier::external_body]
fn system_now() -> SystemTime {
    SystemTime::now()
}

/// `SystemTime::duration_since(UNIX_EPOCH)` (std), `None` before the epoch.
#[verifier::external_body]
fn since_epoch(t: SystemTime) -> Option<Duration> {
    t.duration_since(UNIX_EPOCH).ok()
}

/// `Duration::as_millis` (std).
#[verifier::external_body]
fn duration_millis(d: Duration) -> u128 {
    d.as_millis()
}

/// `u64` value of a clock reading in milliseconds: the count cut to its low
/// 64 bits, 0 for a clock before the epoch.
pub open spec fn epoch_ms_spec(millis: Option<u128>) -> u64 {
    match millis {
        Some(m) => m as u64,
        None => 0,
    }
}

/// Milliseconds since the epoch as `u64` from a clock reading (`None` when
/// the clock is before the epoch); larger counts keep their low 64 bits.
pub fn epoch_ms(millis: Option<u128>) -> (r: u64)
    ensures
        r == epoch_ms_spec(millis),
{
    match millis {
        Some(m) => {
            #[verifier::truncate]
            (m as u64)
        },
        None => 0,
    }
}

/// Milliseconds since the Unix epoch by the system clock (0 before it): the
/// clock's whole milliseconds since the epoch, if any, through [`epoch_ms`].
/// The clock reading itself is not known to the contract.
pub fn now_ms() -> (r: u64)
    ensures
        exists|millis: Option<u128>| r == epoch_ms_spec(millis),
{
    let millis: Option<u128> = match since_epoch(system_now()) {
        Some(d) => Some(duration_millis(d)),
        None => None,
    };
    epoch_ms(millis)
}

/// Query string signed to authenticate the WebSocket session.
pub fn auth_query(timestamp: u64, api_key: &str) -> (r: String)
    ensures
        r@ == "timestamp="@ + dec(timestamp as nat) + "&apiKey="@ + api_key@,
{
    let mut r = owned("timestamp=");
    let t = u64_to_string(timestamp);
    r.append(t.as_str());
    r.append("&apiKey=");
    r.append(api_key);
    r
}

/// Signature of the WebSocket auth query for `timestamp` and `api_key`.
pub fn auth_signature(api_secret: &str, timestamp: u64, api_key: &str) -> (r: String)
    ensures
        r@ == hex_lower(
            hmac_sha256(
                vstd::utf8::encode_utf8(api_secret@),
                vstd::utf8::encode_utf8("timestamp="@ + dec(timestamp as nat) + "&apiKey="@ + api_key@),
            ),
        ),
{
    let q = auth_query(timestamp, api_key);
    sign(api_secret, q.as_str())
}

} // verus!
