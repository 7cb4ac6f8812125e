//! The message authentication code and the text encoding of its tag.

use vstd::prelude::*;

verus! {

/// The error of hmac's key setup (`digest::InvalidLength`), carried opaque.
#[verifier::external_type_specification]
#[verifier::external_body]
pub struct ExInvalidLength(hmac::digest::InvalidLength);

/// The HMAC-SHA1 tag of `message` under `key`.
pub uninterp spec fn hmac_sha1_of(key: Seq<u8>, message: Seq<u8>) -> Seq<u8>;

/// Relies on hmac's `Hmac<Sha1>` (`Mac::new_from_slice`, `update`, `finalize`):
/// a key of any length is taken (a longer one is hashed first, so key setup
/// always returns `Ok`), and the tag is SHA-1's 20-byte output.
#[verifier::external_body]
pub(crate) fn hmac_sha1(key: &[u8], message: &[u8]) -> (r: Result<Vec<u8>, hmac::digest::InvalidLength>)
    ensures
        r is Ok,
        r matches Ok(tag) ==> tag@ == hmac_sha1_of(key@, message@) && tag@.len() == 20,
{
    let mut mac = <hmac::Hmac<sha1::Sha1> as hmac::Mac>::new_from_slice(key)?;
    hmac::Mac::update(&mut mac, message);
    Ok(hmac::Mac::finalize(mac).into_bytes().to_vec())
}

pub const BASE64_ALPHABET: [char; 64] = [
    'A', 'B', 'C', 'D', 'E', 'F', 'G', 'H', 'I', 'J', 'K', 'L', 'M', 'N', 'O', 'P', 'Q', 'R', 'S',
    'T', 'U', 'V', 'W', 'X', 'Y', 'Z', 'a', 'b', 'c', 'd', 'e', 'f', 'g', 'h', 'i', 'j', 'k', 'l',
    'm', 'n', 'o', 'p', 'q', 'r', 's', 't', 'u', 'v', 'w', 'x', 'y', 'z', '0', '1', '2', '3', '4',
    '5', '6', '7', '8', '9', '+', '/',
];

/// Standard base64 with `=` padding: each group of three bytes gives four
/// characters of six bits each; a final group of one or two bytes is padded.
pub open spec fn base64_encode(b: Seq<u8>) -> Seq<char>
    decreases b.len(),
{
    if b.len() == 0 {
        Seq::empty()
    } else if b.len() == 1 {
        seq![BASE64_ALPHABET@[(b[0] / 4) as int], BASE64_ALPHABET@[((b[0] % 4) * 16) as int], '=', '=']
    } else if b.len() == 2 {
        seq![
            BASE64_ALPHABET@[(b[0] / 4) as int],
            BASE64_ALPHABET@[((b[0] % 4) * 16 + b[1] / 16) as int],
            BASE64_ALPHABET@[((b[1] % 16) * 4) as int],
            '=',
        ]
    } else {
        seq![
            BASE64_ALPHABET@[(b[0] / 4) as int],
            BASE64_ALPHABET@[((b[0] % 4) * 16 + b[1] / 16) as int],
            BASE64_ALPHABET@[((b[1] % 16) * 4 + b[2] / 64) as int],
            BASE64_ALPHABET@[(b[2] % 64) as int],
        ] + base64_encode(b.skip(3))
    }
}

/// Relies on base64's `Engine::encode` with the `STANDARD` engine: the standard
/// alphabet, with padding.
#[verifier::external_body]
pub(crate) fn base64_standard(bytes: &[u8]) -> (r: String)
    ensures
        r@ == base64_encode(bytes@),
{
    base64::Engine::encode(&base64::engine::general_purpose::STANDARD, bytes)
}

} // verus!
