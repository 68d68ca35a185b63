//! Ed25519: the keys with which agents sign challenges, and the checks the
//! server makes of them.

use vstd::prelude::*;
use ed25519_dalek::pkcs8::{DecodePrivateKey, EncodePrivateKey};

verus! {

/// Whether 32 bytes are the compressed form of a point that Ed25519 accepts
/// as a public key.
pub uninterp spec fn spec_ed25519_key_ok(key: Seq<u8>) -> bool;

/// Reads a public key with `ed25519_dalek::VerifyingKey::from_bytes`; the
/// answer is the name `spec_ed25519_key_ok` of the bytes.
#[verifier::external_body]
pub(crate) fn ed25519_key_ok(key: &[u8]) -> (r: bool)
    requires
        key@.len() == 32,
    ensures
        r == spec_ed25519_key_ok(key@),
{
    match <[u8; 32]>::try_from(key) {
        Ok(k) => ed25519_dalek::VerifyingKey::from_bytes(&k).is_ok(),
        Err(_) => false,
    }
}

/// Whether a 64-byte Ed25519 signature of a message verifies under a public key.
pub uninterp spec fn spec_ed25519_verify(key: Seq<u8>, msg: Seq<u8>, sig: Seq<u8>) -> bool;

/// Checks a signature with `ed25519_dalek::Verifier::verify` of the key read
/// by `VerifyingKey::from_bytes` and the signature read by
/// `Signature::from_bytes`; the answer is the name `spec_ed25519_verify`.
#[verifier::external_body]
pub(crate) fn ed25519_verify(key: &[u8], msg: &[u8], sig: &[u8]) -> (r: bool)
    requires
        key@.len() == 32,
        sig@.len() == 64,
        spec_ed25519_key_ok(key@),
    ensures
        r == spec_ed25519_verify(key@, msg@, sig@),
{
    let k = match <[u8; 32]>::try_from(key) {
        Ok(k) => k,
        Err(_) => return false,
    };
    let s = match <[u8; 64]>::try_from(sig) {
        Ok(s) => s,
        Err(_) => return false,
    };
    match ed25519_dalek::VerifyingKey::from_bytes(&k) {
        Ok(vk) => ed25519_dalek::Verifier::verify(&vk, msg, &ed25519_dalek::Signature::from_bytes(&s)).is_ok(),
        Err(_) => false,
    }
}

/// The public key of a 32-byte Ed25519 secret key.
pub uninterp spec fn spec_ed25519_public(secret: Seq<u8>) -> Seq<u8>;

/// Derives the public key with `ed25519_dalek::SigningKey::from_bytes` and
/// `verifying_key().to_bytes()`: the name `spec_ed25519_public` of the
/// secret, 32 bytes, a point that `VerifyingKey::from_bytes` reads back.
#[verifier::external_body]
pub(crate) fn ed25519_public(secret: &[u8]) -> (r: Vec<u8>)
    requires
        secret@.len() == 32,
    ensures
        r@ == spec_ed25519_public(secret@),
        r@.len() == 32,
        spec_ed25519_key_ok(r@),
{
    match <[u8; 32]>::try_from(secret) {
        Ok(k) => ed25519_dalek::SigningKey::from_bytes(&k).verifying_key().to_bytes().to_vec(),
        Err(_) => Vec::new(),
    }
}

/// The Ed25519 signature of a message under a secret key.
pub uninterp spec fn spec_ed25519_sign(secret: Seq<u8>, msg: Seq<u8>) -> Seq<u8>;

/// Signs with `ed25519_dalek::Signer::sign` of `SigningKey::from_bytes`:
/// the name `spec_ed25519_sign`, 64 bytes, which verifies under the public
/// key of the secret.
#[verifier::external_body]
pub(crate) fn ed25519_sign(secret: &[u8], msg: &[u8]) -> (r: Vec<u8>)
    requires
        secret@.len() == 32,
    ensures
        r@ == spec_ed25519_sign(secret@, msg@),
        r@.len() == 64,
        spec_ed25519_verify(spec_ed25519_public(secret@), msg@, r@),
{
    match <[u8; 32]>::try_from(secret) {
        Ok(k) => ed25519_dalek::Signer::sign(&ed25519_dalek::SigningKey::from_bytes(&k), msg).to_bytes().to_vec(),
        Err(_) => Vec::new(),
    }
}

/// The 32-byte secret that a PEM-encoded PKCS#8 Ed25519 private key holds,
/// if the text is one (with a public key, only when it belongs to the secret).
pub uninterp spec fn spec_pkcs8_secret(pem: Seq<char>) -> Option<Seq<u8>>;

/// Reads a key with `ed25519_dalek::SigningKey::from_pkcs8_pem` and takes its
/// bytes: the name `spec_pkcs8_secret` of the text, 32 bytes when read.
#[verifier::external_body]
pub(crate) fn secret_from_pkcs8_pem(pem: &str) -> (r: Option<Vec<u8>>)
    ensures
        (r is Some) == (spec_pkcs8_secret(pem@) is Some),
        r matches Some(k) ==> spec_pkcs8_secret(pem@) == Some(k@) && k@.len() == 32,
{
    ed25519_dalek::SigningKey::from_pkcs8_pem(pem).ok().map(|k| k.to_bytes().to_vec())
}

/// The PEM text (PKCS#8, LF line endings) of a 32-byte Ed25519 secret key.
pub uninterp spec fn spec_pkcs8_pem(secret: Seq<u8>) -> Seq<char>;

/// Encodes a key with `ed25519_dalek::pkcs8::EncodePrivateKey::to_pkcs8_pem`
/// (LF line endings) of `SigningKey::from_bytes`. The text is the name
/// `spec_pkcs8_pem` of the secret, and it reads back to the secret: the
/// encoding writes the secret and its own public key, and reading checks the
/// algorithm, takes the secret and accepts the public key that belongs to it.
/// Whether encoding succeeds is not claimed.
#[verifier::external_body]
pub(crate) fn pkcs8_pem_of_secret(secret: &[u8]) -> (r: Option<String>)
    requires
        secret@.len() == 32,
    ensures
        r matches Some(p) ==> p@ == spec_pkcs8_pem(secret@) && spec_pkcs8_secret(p@) == Some(secret@),
{
    let k = <[u8; 32]>::try_from(secret).ok()?;
    let pem = ed25519_dalek::SigningKey::from_bytes(&k)
        .to_pkcs8_pem(ed25519_dalek::pkcs8::spki::der::pem::LineEnding::LF)
        .ok()?;
    Some(pem.as_str().to_string())
}

} // verus!
