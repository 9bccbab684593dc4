//! Identifiers and times of the storage service.
use vstd::prelude::*;
use vstd::arithmetic::power::pow;
use crate::storage::error::{ApiError, ApiErrorView};
use crate::text::{digit_char, owned_str};

verus! {

/// A lowercase hexadecimal digit.
pub open spec fn hex_digit(d: int) -> char {
    if d < 10 {
        digit_char(d)
    } else if d == 10 {
        'a'
    } else if d == 11 {
        'b'
    } else if d == 12 {
        'c'
    } else if d == 13 {
        'd'
    } else if d == 14 {
        'e'
    } else {
        'f'
    }
}

/// The 32 hexadecimal digits of a 128-bit value, most significant first.
pub open spec fn hex32(v: u128) -> Seq<char> {
    Seq::new(32, |i: int| hex_digit((v as int / pow(16, (31 - i) as nat)) % 16))
}

/// A UUID as `Uuid`'s `Display` writes it: lowercase, hyphenated 8-4-4-4-12.
pub open spec fn uuid_text(v: u128) -> Seq<char> {
    let h = hex32(v);
    h.subrange(0, 8) + seq!['-'] + h.subrange(8, 12) + seq!['-'] + h.subrange(12, 16) + seq!['-']
        + h.subrange(16, 20) + seq!['-'] + h.subrange(20, 32)
}

/// What `uuid::Uuid::parse_str` reads from a text, as the UUID's 128-bit value; `None` for its
/// error.
pub uninterp spec fn uuid_parsing(s: Seq<char>) -> Option<u128>;

/// Calls `Uuid::parse_str`. The value is named `uuid_parsing`; the contract also states that the
/// hyphenated text `Display` writes for a UUID parses back to it. Which other texts parse
/// (simple, braced, URN forms) is not stated.
#[verifier::external_body]
fn parse_uuid_text(s: &str) -> (r: Option<u128>)
    ensures
        r == uuid_parsing(s@),
        match r {
            Some(x) => forall|v: u128| #[trigger] uuid_text(v) == s@ ==> x == v,
            None => forall|v: u128| #[trigger] uuid_text(v) != s@,
        },
{
    uuid::Uuid::parse_str(s).ok().map(|u| u.as_u128())
}

/// Calls `Uuid`'s `Display` on the UUID with this 128-bit value.
#[verifier::external_body]
pub fn uuid_to_string(v: u128) -> (r: String)
    ensures
        r@ == uuid_text(v),
{
    uuid::Uuid::from_u128(v).to_string()
}

/// A version 4 (random) UUID of the RFC 4122 variant: version nibble 4, variant bits `10`.
pub open spec fn is_v4(id: u128) -> bool {
    (id >> 76u128) & 0xfu128 == 4 && (id >> 62u128) & 0x3u128 == 2
}

/// Calls `Uuid::new_v4`: a random UUID. Only its version (4) and variant (RFC 4122) bits are
/// stated, as the crate sets them.
#[verifier::external_body]
pub fn new_uuid_v4() -> (r: u128)
    ensures
        is_v4(r),
{
    uuid::Uuid::new_v4().as_u128()
}

/// The nil UUID, which stands for the root of a bucket.
pub open spec fn nil_uuid() -> u128 {
    0
}

/// Parses a UUID, with the error naming what it was meant to be.
pub open spec fn uuid_result(s: Seq<char>, label: Seq<char>) -> Result<u128, ApiErrorView> {
    match uuid_parsing(s) {
        Some(v) => Ok(v),
        None => Err(ApiErrorView::BadRequest("invalid "@ + label + " UUID: "@ + s)),
    }
}

pub open spec fn uuid_result_view(r: Result<u128, ApiError>) -> Result<u128, ApiErrorView> {
    match r {
        Ok(v) => Ok(v),
        Err(e) => Err(e@),
    }
}

pub fn parse_uuid(s: &str, label: &str) -> (r: Result<u128, ApiError>)
    ensures
        uuid_result_view(r) == uuid_result(s@, label@),
        // An id this service wrote is read back as the same id.
        forall|v: u128| #[trigger] uuid_text(v) == s@ ==> r == Ok::<u128, ApiError>(v),
{
    match parse_uuid_text(s) {
        Some(v) => Ok(v),
        None => {
            let mut m = owned_str("invalid ");
            m.append(label);
            m.append(" UUID: ");
            m.append(s);
            Err(ApiError::BadRequest(m))
        },
    }
}

/// An optional UUID parameter: the nil UUID (the root) where it is absent.
pub open spec fn optional_uuid_result(s: Option<Seq<char>>, label: Seq<char>) -> Result<
    u128,
    ApiErrorView,
> {
    match s {
        Some(x) => uuid_result(x, label),
        None => Ok(nil_uuid()),
    }
}

pub fn parse_optional_uuid(s: Option<&str>, label: &str) -> (r: Result<u128, ApiError>)
    ensures
        uuid_result_view(r) == optional_uuid_result(
            match s {
                Some(x) => Some(x@),
                None => None,
            },
            label@,
        ),
{
    match s {
        Some(x) => parse_uuid(x, label),
        None => Ok(0),
    }
}

/// What `chrono` writes for a timestamp in milliseconds: the RFC 3339 text of that instant in
/// UTC, or of the Unix epoch where the timestamp is out of chrono's range.
pub uninterp spec fn rfc3339_at_millis(ms: i64) -> Seq<char>;

/// Calls `DateTime::<Utc>::from_timestamp_millis`, falls back to the default (the epoch) where
/// it gives none, and calls `to_rfc3339`. The text is named `rfc3339_at_millis`; which text it
/// is, is not stated.
#[verifier::external_body]
pub fn ts_to_iso(ts: i64) -> (r: String)
    ensures
        r@ == rfc3339_at_millis(ts),
{
    chrono::DateTime::<chrono::Utc>::from_timestamp_millis(ts).unwrap_or_default().to_rfc3339()
}

/// Calls `Utc::now().timestamp_millis()`: the current time in milliseconds since the epoch.
/// Nothing is stated of it.
#[verifier::external_body]
pub fn now_ts() -> (r: i64) {
    chrono::Utc::now().timestamp_millis()
}

} // verus!
