//! Digest and signature primitives. The hash, base64 and RSA computations
//! are the `openssl` crate's; each is named or constrained here and the
//! header-level logic built on them is verified.

use vstd::prelude::*;

verus! {

/// The SHA-256 digest of a byte sequence: a function of the bytes alone.
pub uninterp spec fn sha256_of(data: Seq<u8>) -> Seq<u8>;

/// The base64 encoding of a byte sequence: a function of the bytes alone.
pub uninterp spec fn b64_of(data: Seq<u8>) -> Seq<char>;

/// What base64 decoding yields for a text: the bytes, or nothing when the
/// text is not valid base64. A function of the text alone.
pub uninterp spec fn b64_dec_of(s: Seq<char>) -> Option<Seq<u8>>;

/// The RSA-SHA256 (PKCS#1 v1.5) signature of the UTF-8 text `data` under
/// the private key in PEM form. The scheme is deterministic, so this is a
/// function of key and text alone.
pub uninterp spec fn rsa_sign_of(priv_pem: Seq<char>, data: Seq<char>) -> Seq<u8>;

/// Whether an RSA-SHA256 signature checks out for the UTF-8 text `data`
/// under the public key in PEM form: a function of key, text and signature
/// alone.
pub uninterp spec fn rsa_verify_of(pub_pem: Seq<char>, data: Seq<char>, sig: Seq<u8>) -> bool;

/// Whether a PEM text holds a usable RSA private key: a function of the
/// text alone.
pub uninterp spec fn rsa_priv_key_ok(pem: Seq<char>) -> bool;

/// Whether a PEM text holds a usable RSA public key: a function of the
/// text alone.
pub uninterp spec fn rsa_pub_key_ok(pem: Seq<char>) -> bool;

/// The largest input length `openssl`'s base64 helpers take: their source
/// asserts the length fits a signed 32-bit C integer (minus padding room on
/// the encode side) and panics beyond it.
pub const B64_MAX_INPUT: usize = 0x3fff_fff0;

/// The largest *character* count of a text handed to base64 decoding. The
/// openssl assert is on the byte length; a character is at most four UTF-8
/// bytes, so this keeps the bytes under the signed 32-bit limit whatever
/// the characters are.
pub const B64_MAX_TEXT: usize = 0x1fff_fffb;

/// Relies on `openssl::sha::sha256`: the SHA-256 digest, 32 bytes.
#[verifier::external_body]
fn sha256(data: &[u8]) -> (r: Vec<u8>)
    ensures
        r@ == sha256_of(data@),
        r@.len() == 32,
{
    openssl::sha::sha256(data).to_vec()
}

/// Relies on `openssl::base64::encode_block`: standard base64 with padding,
/// four output characters for every started group of three input bytes. The
/// length bound keeps clear of the `assert!` in its source, which panics on
/// oversized inputs.
#[verifier::external_body]
pub(crate) fn base64_encode(data: &[u8]) -> (r: String)
    requires
        data@.len() <= B64_MAX_INPUT,
    ensures
        r@ == b64_of(data@),
        r@.len() == 4 * ((data@.len() + 2) / 3),
{
    openssl::base64::encode_block(data)
}

/// Relies on `openssl::base64::decode_block`: inverse direction of the
/// encoding; fails exactly on texts that are not valid base64. Its source
/// asserts that the *byte* length fits a signed 32-bit C integer and panics
/// beyond it; the character bound here keeps the bytes under that limit
/// for every UTF-8 text.
#[verifier::external_body]
pub(crate) fn base64_decode(s: &str) -> (r: Option<Vec<u8>>)
    requires
        s@.len() <= B64_MAX_TEXT,
    ensures
        match r {
            Some(b) => b64_dec_of(s@) == Some(b@),
            None => b64_dec_of(s@) is None,
        },
{
    match openssl::base64::decode_block(s) {
        Ok(b) => Some(b),
        Err(_) => None,
    }
}

/// Relies on `openssl::sign::Signer` with SHA-256 over an RSA key read by
/// `Rsa::private_key_from_pem`: produces the deterministic PKCS#1 v1.5
/// signature; it fails exactly when the PEM text is not a usable private
/// key, so success is a function of the key text alone.
#[verifier::external_body]
pub(crate) fn rsa_sha256_sign(priv_pem: &str, data: &str) -> (r: Option<Vec<u8>>)
    ensures
        r is Some <==> rsa_priv_key_ok(priv_pem@),
        r matches Some(s) ==> s@ == rsa_sign_of(priv_pem@, data@),
{
    let key = openssl::rsa::Rsa::private_key_from_pem(priv_pem.as_bytes()).ok()?;
    let keypair = openssl::pkey::PKey::from_rsa(key).ok()?;
    let mut signer = openssl::sign::Signer::new(
        openssl::hash::MessageDigest::sha256(),
        &keypair,
    ).ok()?;
    signer.update(data.as_bytes()).ok()?;
    signer.sign_to_vec().ok()
}

/// Relies on `openssl::sign::Verifier` with SHA-256 over an RSA key read by
/// `Rsa::public_key_from_pem`: reports whether the signature verifies; it
/// fails exactly when the PEM text is not a usable public key, so success
/// is a function of the key text alone.
#[verifier::external_body]
pub(crate) fn rsa_sha256_verify(pub_pem: &str, data: &str, sig: &[u8]) -> (r: Option<bool>)
    ensures
        r is Some <==> rsa_pub_key_ok(pub_pem@),
        r matches Some(b) ==> b == rsa_verify_of(pub_pem@, data@, sig@),
{
    let key = openssl::rsa::Rsa::public_key_from_pem(pub_pem.as_bytes()).ok()?;
    let keypair = openssl::pkey::PKey::from_rsa(key).ok()?;
    let mut verifier = openssl::sign::Verifier::new(
        openssl::hash::MessageDigest::sha256(),
        &keypair,
    ).ok()?;
    verifier.update(data.as_bytes()).ok()?;
    verifier.verify(sig).ok()
}

/// The value of a `Digest` header for a body: its SHA-256 digest, base64
/// encoded.
pub open spec fn spec_digest(body: Seq<u8>) -> Seq<char> {
    b64_of(sha256_of(body))
}

/// The base64 text of the SHA-256 digest of `body`: 44 characters.
pub fn generate_digest(body: &[u8]) -> (r: String)
    ensures
        r@ == spec_digest(body@),
        r@.len() == 44,
{
    let h = sha256(body);
    base64_encode(h.as_slice())
}

} // verus!
