//! Thumbnail delivery: a PNG's bytes as a data URL the UI can show
//! directly.

use vstd::prelude::*;

verus! {

/// What the standard base64 encoding of a byte string is. The encoding
/// depends on the bytes alone; its 4-characters-per-3-bytes length is
/// the one fact callers need.
pub uninterp spec fn base64_of(bytes: Seq<u8>) -> Seq<char>;

/// Relies on base64's standard-alphabet engine: the padded encoding of
/// the bytes, four characters per three-byte group.
#[verifier::external_body]
fn base64_encode(bytes: &Vec<u8>) -> (r: String)
    ensures
        r@ == base64_of(bytes@),
        r@.len() == 4 * ((bytes@.len() + 2) / 3),
{
    <base64::engine::GeneralPurpose as base64::Engine>::encode(
        &base64::engine::general_purpose::STANDARD,
        bytes,
    )
}

/// The data URL of a PNG thumbnail.
pub open spec fn thumbnail_data_url_seq(bytes: Seq<u8>) -> Seq<char> {
    "data:image/png;base64,"@ + base64_of(bytes)
}

/// Wrap a thumbnail's bytes into a data URL.
pub fn thumbnail_data_url(bytes: &Vec<u8>) -> (r: String)
    ensures
        r@ == thumbnail_data_url_seq(bytes@),
{
    let b64 = base64_encode(bytes);
    "data:image/png;base64,".to_owned().concat(b64.as_str())
}

} // verus!
