//! Base64, as the paging cursors of the REST service use it.
use vstd::prelude::*;
use base64::Engine;

verus! {

/// What `base64::engine::general_purpose::STANDARD.encode` gives for some bytes.
pub uninterp spec fn base64_encoding(b: Seq<u8>) -> Seq<char>;

/// What `base64::engine::general_purpose::STANDARD.decode` gives for a text; `None` for its
/// error.
pub uninterp spec fn base64_decoding(t: Seq<char>) -> Option<Seq<u8>>;

/// The byte counts whose encoded length `base64` can compute without overflow (it panics on
/// the others).
pub open spec fn base64_encodable(n: nat) -> bool {
    (if n % 3 == 0 {
        n / 3 * 4
    } else {
        n / 3 * 4 + 4
    }) <= usize::MAX
}

/// Calls `STANDARD.encode` (standard alphabet, with padding). The text is named
/// `base64_encoding`; which text it is, is not stated. The contract also states the crate's
/// round trip: `STANDARD.decode` reads the text back as the same bytes (the engine writes
/// canonical padding and accepts it).
#[verifier::external_body]
pub fn base64_encode(b: &[u8]) -> (r: String)
    requires
        base64_encodable(b@.len()),
    ensures
        r@ == base64_encoding(b@),
        base64_decoding(r@) == Some(b@),
{
    base64::engine::general_purpose::STANDARD.encode(b)
}

/// Calls `STANDARD.decode`, `None` for its error. The result is named `base64_decoding`. The
/// contract also states the crate's round trip: the text that `encode` gave for some bytes
/// decodes to those bytes (the engine writes canonical padding and accepts it).
#[verifier::external_body]
pub fn base64_decode(t: &str) -> (r: Option<Vec<u8>>)
    ensures
        match r {
            Some(v) => base64_decoding(t@) == Some(v@) && forall|b: Seq<u8>|
                #[trigger] base64_encoding(b) == t@ ==> v@ == b,
            None => base64_decoding(t@) is None && forall|b: Seq<u8>|
                #[trigger] base64_encoding(b) != t@,
        },
{
    base64::engine::general_purpose::STANDARD.decode(t).ok()
}

} // verus!
