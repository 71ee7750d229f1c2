//! Hash functions, message authentication codes and the text encodings of
//! their results.

use base64::Engine;
use hmac::Mac;
use sha2::Digest;
use vstd::prelude::*;
use vstd::string::*;

verus! {

/// The SHA-256 digest of a byte string.
pub uninterp spec fn sha256_digest(data: Seq<u8>) -> Seq<u8>;

/// The SHA-1 digest of a byte string.
pub uninterp spec fn sha1_digest(data: Seq<u8>) -> Seq<u8>;

/// The HMAC-SHA256 authentication code of `data` under `key`.
pub uninterp spec fn hmac_sha256_code(key: Seq<u8>, data: Seq<u8>) -> Seq<u8>;

/// The HMAC-SHA1 authentication code of `data` under `key`.
pub uninterp spec fn hmac_sha1_code(key: Seq<u8>, data: Seq<u8>) -> Seq<u8>;

/// The base64 text of a byte string, in the standard alphabet with padding.
pub uninterp spec fn base64_text(data: Seq<u8>) -> Seq<char>;

/// The sixteen hexadecimal digits, lower case.
pub open spec fn lower_hex_digits() -> Seq<char> {
    seq!['0', '1', '2', '3', '4', '5', '6', '7', '8', '9', 'a', 'b', 'c', 'd', 'e', 'f']
}

/// The lower-case hexadecimal text of a byte string: two digits for each
/// byte, the high half first.
pub open spec fn hex_text(data: Seq<u8>) -> Seq<char> {
    Seq::new(
        2 * data.len(),
        |i: int|
            if i % 2 == 0 {
                lower_hex_digits()[data[i / 2] as int / 16]
            } else {
                lower_hex_digits()[data[i / 2] as int % 16]
            },
    )
}

/// Calls `Sha256` of the crate sha2 through its `Digest` interface: one
/// `update` with the whole input, then `finalize`. The result is claimed to
/// be the SHA-256 digest of the input, which is here only given a name,
/// and to be 32 bytes long, the output size that the crate declares.
#[verifier::external_body]
pub(crate) fn sha256(data: &[u8]) -> (r: Vec<u8>)
    ensures
        r@ == sha256_digest(data@),
        r@.len() == 32,
{
    let mut hasher = sha2::Sha256::new();
    hasher.update(data);
    hasher.finalize().to_vec()
}

/// Calls `Sha1` of the crate sha1 through its `Digest` interface: one
/// `update` with the whole input, then `finalize`. The result is claimed to
/// be the SHA-1 digest of the input, which is here only given a name, and
/// to be 20 bytes long, the output size that the crate declares.
#[verifier::external_body]
pub(crate) fn sha1(data: &[u8]) -> (r: Vec<u8>)
    ensures
        r@ == sha1_digest(data@),
        r@.len() == 20,
{
    let mut hasher = sha1::Sha1::new();
    hasher.update(data);
    hasher.finalize().to_vec()
}

/// Calls `Hmac<Sha256>` of the crate hmac: `new_from_slice` with the key,
/// which accepts a key of any length, one `update` with the UTF-8 bytes of
/// `data`, then `finalize`. The result is claimed to be the authentication
/// code of those bytes under the key, which is here only given a name, and
/// to be as long as a digest of the hash function, 32 bytes.
#[verifier::external_body]
pub(crate) fn hmac_sha256(key: &[u8], data: &str) -> (r: Vec<u8>)
    ensures
        r@ == hmac_sha256_code(key@, data.spec_bytes()),
        r@.len() == 32,
{
    let mut mac = hmac::Hmac::<sha2::Sha256>::new_from_slice(key)
        .expect("HMAC can take key of any size");
    mac.update(data.as_bytes());
    mac.finalize().into_bytes().to_vec()
}

/// Calls `Hmac<Sha1>` of the crate hmac in the same way as
/// [`hmac_sha256`] calls `Hmac<Sha256>`; the code is claimed to be as long
/// as a digest of the hash function, 20 bytes.
#[verifier::external_body]
pub(crate) fn hmac_sha1(key: &[u8], data: &str) -> (r: Vec<u8>)
    ensures
        r@ == hmac_sha1_code(key@, data.spec_bytes()),
        r@.len() == 20,
{
    let mut mac = hmac::Hmac::<sha1::Sha1>::new_from_slice(key)
        .expect("HMAC can take key of any size");
    mac.update(data.as_bytes());
    mac.finalize().into_bytes().to_vec()
}

/// Calls `hex::encode`, which writes each byte as two lower-case
/// hexadecimal digits, the high half first.
#[verifier::external_body]
pub(crate) fn hex_encode(data: &[u8]) -> (r: String)
    ensures
        r@ == hex_text(data@),
{
    hex::encode(data)
}

/// Calls `encode` of the `STANDARD` engine of the crate base64, which
/// panics where the length of the text does not fit in `usize`; that is
/// so for no input of at most `isize::MAX` bytes. The result is claimed to
/// be the padded base64 text of the input in the standard alphabet, which
/// is here only given a name.
#[verifier::external_body]
pub(crate) fn base64_encode(data: &[u8]) -> (r: String)
    requires
        data@.len() <= isize::MAX,
    ensures
        r@ == base64_text(data@),
{
    base64::engine::general_purpose::STANDARD.encode(data)
}

/// The diagnostic of data that is too long to be written in base64.
pub const TOO_LONG: &'static str = "数据过大，无法编码";

/// The base64 text of a byte string, or a diagnostic where the byte string
/// is longer than `isize::MAX` bytes.
pub open spec fn encoded(data: Seq<u8>) -> Result<Seq<char>, Seq<char>> {
    if data.len() <= isize::MAX {
        Ok(base64_text(data))
    } else {
        Err(TOO_LONG@)
    }
}

/// Writes a byte string in base64.
pub fn encode_base64(data: &[u8]) -> (r: Result<String, String>)
    ensures
        match r {
            Ok(s) => encoded(data@) == Ok::<Seq<char>, Seq<char>>(s@),
            Err(e) => encoded(data@) == Err::<Seq<char>, Seq<char>>(e@),
        },
{
    if data.len() <= isize::MAX as usize {
        Ok(base64_encode(data))
    } else {
        Err(String::from_str(TOO_LONG))
    }
}

/// The SHA-256 digest of the UTF-8 bytes of `data`, in hexadecimal.
pub fn sha256_hex(data: &str) -> (r: String)
    ensures
        r@ == hex_text(sha256_digest(data.spec_bytes())),
        r@.len() == 64,
{
    let digest = sha256(data.as_bytes());
    hex_encode(digest.as_slice())
}

/// The SHA-1 digest of the UTF-8 bytes of `data`, in hexadecimal.
pub fn sha1_hash(data: &str) -> (r: String)
    ensures
        r@ == hex_text(sha1_digest(data.spec_bytes())),
        r@.len() == 40,
{
    let digest = sha1(data.as_bytes());
    hex_encode(digest.as_slice())
}

/// The HMAC-SHA256 code of `data` under `key`, in hexadecimal.
pub fn hmac_sha256_hex(key: &[u8], data: &str) -> (r: String)
    ensures
        r@ == hex_text(hmac_sha256_code(key@, data.spec_bytes())),
        r@.len() == 64,
{
    let code = hmac_sha256(key, data);
    hex_encode(code.as_slice())
}

/// The HMAC-SHA1 code of `data` under `key`, in hexadecimal.
pub fn hmac_sha1_hex(key: &[u8], data: &str) -> (r: String)
    ensures
        r@ == hex_text(hmac_sha1_code(key@, data.spec_bytes())),
        r@.len() == 40,
{
    let code = hmac_sha1(key, data);
    hex_encode(code.as_slice())
}

} // verus!
