//! The agent's local identity: which server, agent and credential it uses.
//! It lives in `.agentim/` in the working directory, with the private key.

use vstd::prelude::*;
use vstd::string::*;
use crate::auth::token;
use crate::crypto::{pkcs8_pem_of_secret, secret_from_pkcs8_pem, spec_pkcs8_pem, spec_pkcs8_secret};

verus! {

/// The agent's identity file: server address, agent id and credential id.
pub struct Identity {
    pub server: String,
    pub agent_id: String,
    pub credential_id: String,
}

/// Return the `.agentim/` directory in the current working directory.
pub fn identity_dir() -> (r: String)
    ensures
        r@ == ".agentim"@,
{
    String::from_str(".agentim")
}

/// Whether the permission bits of the private key file are owner read and
/// write only (0600).
pub fn private_key_mode_ok(mode: u32) -> (r: bool)
    ensures
        r == (mode & 0o777 == 0o600),
{
    mode & 0o777 == 0o600
}

/// What loading the private key file's text gives: the secret it holds, or
/// the error "failed to parse private key PEM".
pub open spec fn key_loaded(pem: Seq<char>, r: Result<Vec<u8>, String>) -> bool {
    match spec_pkcs8_secret(pem) {
        Some(k) => r matches Ok(v) && v@ == k,
        None => r matches Err(m) && m@ == "failed to parse private key PEM"@,
    }
}

/// The Ed25519 secret key held by the text of `.agentim/private_key.pem`.
pub fn load_signing_key(pem: &str) -> (r: Result<Vec<u8>, String>)
    ensures
        key_loaded(pem@, r),
        r matches Ok(k) ==> k@.len() == 32,
{
    match secret_from_pkcs8_pem(pem) {
        Some(k) => Ok(k),
        None => Err(String::from_str("failed to parse private key PEM")),
    }
}

/// The text saved as `.agentim/private_key.pem` for a secret key: PKCS#8 PEM,
/// which loads back to the same key; or the error
/// "failed to encode private key to PEM".
pub fn private_key_pem(secret: &[u8]) -> (r: Result<String, String>)
    requires
        secret@.len() == 32,
    ensures
        r matches Ok(p) ==> p@ == spec_pkcs8_pem(secret@) && spec_pkcs8_secret(p@) == Some(secret@),
        r matches Err(m) ==> m@ == "failed to encode private key to PEM"@,
{
    match pkcs8_pem_of_secret(secret) {
        Some(p) => Ok(p),
        None => Err(String::from_str("failed to encode private key to PEM")),
    }
}

/// A new Ed25519 secret key: 32 bytes from the thread's random generator.
pub fn new_secret_key() -> (r: Vec<u8>)
    ensures
        r@.len() == 32,
{
    token::random_bytes(32)
}

/// A key saved to its file and loaded again is the same key.
pub proof fn saved_key_loads_back(secret: Seq<u8>, pem: Seq<char>, loaded: Result<Vec<u8>, String>)
    requires
        pem == spec_pkcs8_pem(secret),
        spec_pkcs8_secret(pem) == Some(secret),
        key_loaded(pem, loaded),
    ensures
        loaded matches Ok(k) && k@ == secret,
{
}

} // verus!
