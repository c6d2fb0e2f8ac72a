//! Base64 and base32 texts, computed by the `base64` and `data-encoding` crates.
use vstd::prelude::*;

verus! {

/// The text that the URL-safe, unpadded base64 engine gives for `bytes`.
pub uninterp spec fn base64_url_nopad_encoded(bytes: Seq<u8>) -> Seq<char>;

/// What the URL-safe, unpadded base64 engine decodes `text` to, if it accepts it.
pub uninterp spec fn base64_url_nopad_decoded(text: Seq<char>) -> Option<Seq<u8>>;

/// The text that the standard, unpadded base64 engine gives for `bytes`.
pub uninterp spec fn base64_std_nopad_encoded(bytes: Seq<u8>) -> Seq<char>;

/// What the standard, unpadded base64 engine decodes `text` to, if it accepts it.
pub uninterp spec fn base64_std_nopad_decoded(text: Seq<char>) -> Option<Seq<u8>>;

/// What the standard, padded base64 engine decodes `text` to, if it accepts it.
pub uninterp spec fn base64_std_decoded(text: Seq<char>) -> Option<Seq<u8>>;

/// The text that the unpadded base32 encoding gives for `bytes`.
pub uninterp spec fn base32_nopad_encoded(bytes: Seq<u8>) -> Seq<char>;

/// `BASE64_URL_SAFE_NO_PAD.encode`: a function of the bytes, which the same
/// engine decodes back to them.
#[verifier::external_body]
pub(crate) fn base64_url_nopad_encode(bytes: &[u8]) -> (r: String)
    ensures
        r@ == base64_url_nopad_encoded(bytes@),
        base64_url_nopad_decoded(r@) == Some(bytes@),
{
    base64::Engine::encode(&base64::prelude::BASE64_URL_SAFE_NO_PAD, bytes)
}

/// `BASE64_URL_SAFE_NO_PAD.decode`: a function of the text; the
/// decoding error is dropped.
#[verifier::external_body]
pub(crate) fn base64_url_nopad_decode(text: &str) -> (r: Option<Vec<u8>>)
    ensures
        match r {
            Some(v) => base64_url_nopad_decoded(text@) == Some(v@),
            None => base64_url_nopad_decoded(text@) is None,
        },
{
    base64::Engine::decode(&base64::prelude::BASE64_URL_SAFE_NO_PAD, text).ok()
}

/// `STANDARD_NO_PAD.encode`: a function of the bytes, which the same engine
/// decodes back to them.
#[verifier::external_body]
pub(crate) fn base64_std_nopad_encode(bytes: &[u8]) -> (r: String)
    ensures
        r@ == base64_std_nopad_encoded(bytes@),
        base64_std_nopad_decoded(r@) == Some(bytes@),
{
    base64::Engine::encode(&base64::engine::general_purpose::STANDARD_NO_PAD, bytes)
}

/// `STANDARD_NO_PAD.decode`: a function of the text; the
/// decoding error is dropped.
#[verifier::external_body]
pub(crate) fn base64_std_nopad_decode(text: &str) -> (r: Option<Vec<u8>>)
    ensures
        match r {
            Some(v) => base64_std_nopad_decoded(text@) == Some(v@),
            None => base64_std_nopad_decoded(text@) is None,
        },
{
    base64::Engine::decode(&base64::engine::general_purpose::STANDARD_NO_PAD, text).ok()
}

/// `BASE64_STANDARD.decode`: a function of the text; the
/// decoding error is dropped.
#[verifier::external_body]
pub(crate) fn base64_std_decode(text: &str) -> (r: Option<Vec<u8>>)
    ensures
        match r {
            Some(v) => base64_std_decoded(text@) == Some(v@),
            None => base64_std_decoded(text@) is None,
        },
{
    base64::Engine::decode(&base64::prelude::BASE64_STANDARD, text).ok()
}

/// `data_encoding::BASE32_NOPAD.encode`: a function of the bytes, whose
/// characters come from the base32 alphabet `A`-`Z`, `2`-`7`, eight of them
/// for each five bytes, rounded up.
#[verifier::external_body]
pub(crate) fn base32_nopad_encode(bytes: &[u8]) -> (r: String)
    ensures
        r@ == base32_nopad_encoded(bytes@),
        r@.len() == (8 * bytes@.len() + 4) / 5,
        forall|i: int|
            0 <= i < r@.len() ==> ('A' <= #[trigger] r@[i] <= 'Z' || '2' <= r@[i] <= '7'),
{
    data_encoding::BASE32_NOPAD.encode(bytes)
}

} // verus!
