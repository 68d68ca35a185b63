//! Tokens and digests: claim codes, challenge nonces, public key
//! fingerprints and JWT access tokens.

use vstd::prelude::*;
use vstd::string::*;
use crate::clock;
use crate::consts;
use crate::text;
use base64::Engine;
use rand::Rng;
use serde_json::Value;
use sha2::Digest;

verus! {

// ── Digests and encodings ──

/// The SHA-256 digest of a byte sequence.
pub uninterp spec fn spec_sha256(data: Seq<u8>) -> Seq<u8>;

/// Hashes with `sha2::Sha256::digest`: the result is the name `spec_sha256`
/// of the input, and a SHA-256 digest is 32 bytes long.
#[verifier::external_body]
fn sha256(data: &[u8]) -> (r: Vec<u8>)
    ensures
        r@ == spec_sha256(data@),
        r@.len() == 32,
{
    sha2::Sha256::digest(data).to_vec()
}

/// The lowercase hex digit of a value below 16.
pub open spec fn hex_digit(n: int) -> char {
    if n < 10 {
        (48 + n) as char
    } else {
        (87 + n) as char
    }
}

/// A hex digit as `hex` writes it: 0-9 or a-f.
pub open spec fn is_lower_hex_digit(c: char) -> bool {
    ('0' <= c && c <= '9') || ('a' <= c && c <= 'f')
}

/// Lowercase hex encoding: two digits per byte, high nibble first.
pub open spec fn hex_lower(b: Seq<u8>) -> Seq<char> {
    Seq::new(
        (2 * b.len()) as nat,
        |i: int|
            if i % 2 == 0 {
                hex_digit(b[i / 2] as int / 16)
            } else {
                hex_digit(b[i / 2] as int % 16)
            },
    )
}

/// Encodes with `hex::encode`, which writes each byte as two lowercase hex
/// digits, high nibble first.
#[verifier::external_body]
fn hex_encode(data: &[u8]) -> (r: String)
    ensures
        r@ == hex_lower(data@),
{
    hex::encode(data)
}

/// Every character of a hex encoding is a lowercase hex digit.
pub proof fn hex_lower_digits(b: Seq<u8>)
    ensures
        hex_lower(b).len() == 2 * b.len(),
        forall|i: int| 0 <= i < hex_lower(b).len() ==> is_lower_hex_digit(#[trigger] hex_lower(b)[i]),
{
    assert forall|i: int| 0 <= i < hex_lower(b).len() implies is_lower_hex_digit(
        #[trigger] hex_lower(b)[i],
    ) by {
        let v = b[i / 2] as int;
        assert(0 <= v / 16 < 16);
        assert(0 <= v % 16 < 16);
    }
}

/// Standard base64 (with padding) of a byte sequence.
pub uninterp spec fn spec_base64(data: Seq<u8>) -> Seq<char>;

/// Length of padded standard base64 text for `n` bytes.
pub open spec fn base64_len(n: nat) -> nat {
    4 * ((n + 2) / 3)
}

/// Encodes with `base64::engine::general_purpose::STANDARD`: the result is
/// the name `spec_base64` of the input, four characters for each started
/// group of three bytes, and decoding it gives the input back.
#[verifier::external_body]
pub(crate) fn base64_encode(data: &[u8]) -> (r: String)
    requires
        data@.len() <= 1024,
    ensures
        r@ == spec_base64(data@),
        r@.len() == base64_len(data@.len()),
        spec_base64_decode(r@) == Some(data@),
{
    base64::engine::general_purpose::STANDARD.encode(data)
}

/// The bytes that standard base64 decoding gives, if the text decodes.
pub uninterp spec fn spec_base64_decode(s: Seq<char>) -> Option<Seq<u8>>;

/// Decodes with `base64::engine::general_purpose::STANDARD`; the result is
/// the name `spec_base64_decode` of the text.
#[verifier::external_body]
pub(crate) fn base64_decode(s: &str) -> (r: Option<Vec<u8>>)
    ensures
        match r {
            Some(v) => spec_base64_decode(s@) == Some(v@),
            None => spec_base64_decode(s@) is None,
        },
{
    base64::engine::general_purpose::STANDARD.decode(s).ok()
}

/// Draws `n` bytes from `rand::rng()`. Only the length is claimed.
#[verifier::external_body]
pub(crate) fn random_bytes(n: usize) -> (r: Vec<u8>)
    ensures
        r@.len() == n,
{
    let mut rng = rand::rng();
    (0..n).map(|_| rng.random::<u8>()).collect()
}

// ── Claim code ──

/// Prefix of every claim code.
pub open spec fn claim_code_prefix() -> Seq<char> {
    "clm_"@
}

/// A claim code: the prefix, then the hex of 32 random bytes.
pub open spec fn is_claim_code(code: Seq<char>) -> bool {
    exists|b: Seq<u8>|
        b.len() == consts::CLAIM_CODE_RANDOM_BYTES && code == claim_code_prefix() + #[trigger] hex_lower(b)
}

/// The claim code made of drawn bytes: `clm_` + their lowercase hex.
pub fn claim_code_from(bytes: &[u8]) -> (r: String)
    ensures
        r@ == claim_code_prefix() + hex_lower(bytes@),
        r@.len() == 4 + 2 * bytes@.len(),
        r@.subrange(0, 4) == claim_code_prefix(),
{
    let hex = hex_encode(bytes);
    let mut code = String::from_str("clm_");
    code.append(hex.as_str());
    proof {
        reveal_strlit("clm_");
        assert(code@ == claim_code_prefix() + hex_lower(bytes@));
        assert(code@.subrange(0, 4) =~= claim_code_prefix());
    }
    code
}

/// Generate a one-time claim code: `clm_` + the hex of fresh random bytes.
pub fn generate_claim_code() -> (r: String)
    ensures
        is_claim_code(r@),
        r@.len() == 4 + 2 * consts::CLAIM_CODE_RANDOM_BYTES,
        r@.subrange(0, 4) == claim_code_prefix(),
{
    let bytes = random_bytes(consts::CLAIM_CODE_RANDOM_BYTES);
    let code = claim_code_from(bytes.as_slice());
    proof {
        assert(code@ == claim_code_prefix() + hex_lower(bytes@));
    }
    code
}

/// The stored hash of a claim code: lowercase hex of its SHA-256.
pub open spec fn claim_code_hash(raw: Seq<u8>) -> Seq<char> {
    hex_lower(spec_sha256(raw))
}

/// Compute the SHA-256 hash of a claim code, returned as lowercase hex.
pub fn hash_claim_code(raw: &str) -> (r: String)
    ensures
        r@ == claim_code_hash(raw.spec_bytes()),
        r@.len() == 64,
{
    let digest = sha256(raw.as_bytes());
    hex_encode(digest.as_slice())
}

// ── Challenge nonce ──

/// A challenge nonce: the standard base64 of 32 random bytes.
pub open spec fn is_challenge_nonce(nonce: Seq<char>) -> bool {
    exists|b: Seq<u8>| b.len() == consts::CHALLENGE_NONCE_BYTES && nonce == #[trigger] spec_base64(b)
}

/// Generate a random challenge nonce (32 bytes, base64 encoded).
pub fn generate_challenge_nonce() -> (r: String)
    ensures
        is_challenge_nonce(r@),
        r@.len() == 44,
{
    let bytes = random_bytes(consts::CHALLENGE_NONCE_BYTES);
    base64_encode(bytes.as_slice())
}

// ── Ed25519 public key fingerprint ──

/// The fingerprint of a public key: the first 16 hex digits of its SHA-256.
pub open spec fn fingerprint_of(key: Seq<u8>) -> Seq<char> {
    hex_lower(spec_sha256(key)).subrange(0, consts::FINGERPRINT_HEX_LEN as int)
}

/// Compute the fingerprint of an Ed25519 public key (SHA-256 first 16 hex chars).
pub fn public_key_fingerprint(public_key_bytes: &[u8]) -> (r: String)
    ensures
        r@ == fingerprint_of(public_key_bytes@),
        r@.len() == consts::FINGERPRINT_HEX_LEN,
        forall|i: int| 0 <= i < r@.len() ==> is_lower_hex_digit(#[trigger] r@[i]),
{
    let digest = sha256(public_key_bytes);
    let hex = hex_encode(digest.as_slice());
    proof {
        hex_lower_digits(digest@);
    }
    let head = hex.as_str().substring_char(0, consts::FINGERPRINT_HEX_LEN);
    String::from_str(head)
}

// ── JWT ──

/// JWT claims payload.
pub struct JwtClaims {
    /// Subject: agent_id
    pub sub: String,
    /// Credential ID used for authentication
    pub cid: String,
    /// Issued at (unix timestamp)
    pub iat: i64,
    /// Expires at (unix timestamp)
    pub exp: i64,
}

/// The HS256 token that jsonwebtoken makes of the claims `sub`, `cid`,
/// `iat`, `exp` under a secret.
pub uninterp spec fn spec_jwt_encode(
    sub: Seq<char>,
    cid: Seq<char>,
    iat: i64,
    exp: i64,
    secret: Seq<char>,
) -> Seq<char>;

/// Signs with `jsonwebtoken::encode` under the default header (HS256) and
/// `EncodingKey::from_secret`. The claims are a JSON object with the four
/// fields, in the order `sub`, `cid`, `iat`, `exp`. The source shows no failure for HMAC keys and a string-keyed
/// object, so the result is `Ok` of the name `spec_jwt_encode`.
#[verifier::external_body]
fn jwt_encode(sub: &str, cid: &str, iat: i64, exp: i64, secret: &str) -> (r: Result<String, String>)
    ensures
        r is Ok,
        r matches Ok(t) ==> t@ == spec_jwt_encode(sub@, cid@, iat, exp, secret@),
{
    let mut claims = serde_json::Map::new();
    claims.insert("sub".to_string(), sub.into());
    claims.insert("cid".to_string(), cid.into());
    claims.insert("iat".to_string(), iat.into());
    claims.insert("exp".to_string(), exp.into());
    let key = jsonwebtoken::EncodingKey::from_secret(secret.as_bytes());
    jsonwebtoken::encode(&jsonwebtoken::Header::default(), &claims, &key).map_err(|e| e.to_string())
}

/// The claims of a verified token, each as found: a string or a number of
/// the right kind, else none.
pub type DecodedClaims = (Option<String>, Option<String>, Option<i64>, Option<i64>);

/// What a decoding of `token` under `secret` can give: a token made by
/// `spec_jwt_encode` under that secret, when accepted, gives back the four
/// claims it was made of.
pub open spec fn decoded_from(token: Seq<char>, secret: Seq<char>, d: Result<DecodedClaims, String>) -> bool {
    d matches Ok(c) ==> forall|sub: Seq<char>, cid: Seq<char>, iat: i64, exp: i64|
        token == #[trigger] spec_jwt_encode(sub, cid, iat, exp, secret) ==> (c.0 matches Some(s) && s@
            == sub) && (c.1 matches Some(s) && s@ == cid) && c.2 == Some(iat) && c.3 == Some(exp)
}

/// Checks a token with `jsonwebtoken::decode` under the default validation
/// (HS256, `exp` checked against the clock with 60 s leeway) with the claims
/// named in `required` required, and reads the four claims `sub`, `cid`,
/// `iat`, `exp`. What it answers depends on the clock; the contract claims
/// only `decoded_from`. When a token is accepted, and whether a token from
/// elsewhere is, is not stated; a refusal carries jsonwebtoken's reason.
#[verifier::external_body]
fn jwt_decode(token: &str, secret: &str, required: &Vec<String>) -> (r: Result<DecodedClaims, String>)
    ensures
        decoded_from(token@, secret@, r),
{
    let mut v = jsonwebtoken::Validation::default();
    v.set_required_spec_claims(required);
    let key = jsonwebtoken::DecodingKey::from_secret(secret.as_bytes());
    let c = jsonwebtoken::decode::<serde_json::Map<String, Value>>(token, &key, &v)
        .map_err(|e| e.to_string())?.claims;
    let s = |k: &str| c.get(k).and_then(Value::as_str).map(str::to_string);
    let n = |k: &str| c.get(k).and_then(Value::as_i64);
    Ok((s("sub"), s("cid"), n("iat"), n("exp")))
}

/// Create a JWT access token at a given time (unix seconds): the claims are
/// the agent, the credential, `now` and `now` plus the access token TTL.
pub fn create_jwt_at(agent_id: &str, credential_id: &str, secret: &str, now: i64) -> (r: Result<
    String,
    String,
>)
    requires
        now + consts::ACCESS_TOKEN_TTL_SECS <= i64::MAX,
    ensures
        r matches Ok(t) && t@ == spec_jwt_encode(
            agent_id@,
            credential_id@,
            now,
            (now + consts::ACCESS_TOKEN_TTL_SECS) as i64,
            secret@,
        ),
{
    let exp = now + consts::ACCESS_TOKEN_TTL_SECS as i64;
    match jwt_encode(agent_id, credential_id, now, exp, secret) {
        Ok(t) => Ok(t),
        Err(e) => {
            let mut m = String::from_str("JWT encoding error: ");
            m.append(e.as_str());
            Err(m)
        },
    }
}

/// Create a JWT access token for an authenticated agent, issued now.
pub fn create_jwt(agent_id: &str, credential_id: &str, secret: &str) -> (r: Result<String, String>)
    ensures
        exists|us: i64|
            clock::valid_time(us) && clock::secs_of(us) + consts::ACCESS_TOKEN_TTL_SECS <= i64::MAX
                && (r matches Ok(t) && t@ == #[trigger] spec_jwt_encode(
                agent_id@,
                credential_id@,
                clock::secs_of(us) as i64,
                (clock::secs_of(us) + consts::ACCESS_TOKEN_TTL_SECS) as i64,
                secret@,
            )),
{
    let us = clock::now_micros();
    let now = clock::seconds(us);
    let r = create_jwt_at(agent_id, credential_id, secret, now);
    assert(clock::secs_of(us) as i64 == now);
    assert(r matches Ok(t) && t@ == spec_jwt_encode(
        agent_id@,
        credential_id@,
        clock::secs_of(us) as i64,
        (clock::secs_of(us) + consts::ACCESS_TOKEN_TTL_SECS) as i64,
        secret@,
    ));
    r
}

/// What `verify_jwt` promises of its answer on a token under a secret.
pub open spec fn verify_jwt_post(token: Seq<char>, secret: Seq<char>, r: Result<JwtClaims, String>) -> bool {
    forall|sub: Seq<char>, cid: Seq<char>, iat: i64, exp: i64|
        token == #[trigger] spec_jwt_encode(sub, cid, iat, exp, secret) ==> (r matches Ok(c) ==> c.sub@
            == sub && c.cid@ == cid && c.iat == iat && c.exp == exp)
}

/// The message of a refused token: "JWT verification error: ", then the
/// reason that jsonwebtoken gives.
pub open spec fn verification_error(m: Seq<char>) -> bool {
    exists|reason: Seq<char>| m == #[trigger] ("JWT verification error: "@ + reason)
}

/// The first claim, in the order `sub`, `cid`, `iat`, `exp`, that is missing
/// (or of the wrong kind).
pub open spec fn missing_field(no_sub: bool, no_cid: bool, no_iat: bool) -> Seq<char> {
    if no_sub {
        "sub"@
    } else if no_cid {
        "cid"@
    } else if no_iat {
        "iat"@
    } else {
        "exp"@
    }
}

/// Why a verified token's claims cannot be read.
fn missing_claim_error(no_sub: bool, no_cid: bool, no_iat: bool) -> (r: String)
    ensures
        r@ == "JSON error: missing field `"@ + missing_field(no_sub, no_cid, no_iat) + "`"@,
{
    let field = if no_sub {
        "sub"
    } else if no_cid {
        "cid"
    } else if no_iat {
        "iat"
    } else {
        "exp"
    };
    text::concat3("JSON error: missing field `", field, "`")
}

/// The answer to a token from what decoding it gave: its claims when all
/// four are there; "JWT verification error: JSON error: missing field `x`"
/// for the first claim `x` that is not; "JWT verification error: " and the
/// reason when decoding refused it.
pub open spec fn claims_answer(d: Result<DecodedClaims, String>, r: Result<JwtClaims, String>) -> bool {
    match d {
        Ok((Some(sub), Some(cid), Some(iat), Some(exp))) => r matches Ok(c) && c.sub@ == sub@ && c.cid@
            == cid@ && c.iat == iat && c.exp == exp,
        Ok((sub, cid, iat, _)) => r matches Err(m) && m@ == "JWT verification error: "@
            + "JSON error: missing field `"@ + missing_field(sub is None, cid is None, iat is None) + "`"@,
        Err(e) => r matches Err(m) && m@ == "JWT verification error: "@ + e@,
    }
}

/// The answer to a token, from what decoding it gave.
pub fn claims_of_decoded(d: Result<DecodedClaims, String>) -> (r: Result<JwtClaims, String>)
    ensures
        claims_answer(d, r),
{
    let ghost dd = d;
    let e = match d {
        Ok((Some(sub), Some(cid), Some(iat), Some(exp))) => {
            return Ok(JwtClaims { sub, cid, iat, exp });
        },
        Ok((sub, cid, iat, _)) => missing_claim_error(sub.is_none(), cid.is_none(), iat.is_none()),
        Err(e) => e,
    };
    let mut m = String::from_str("JWT verification error: ");
    m.append(e.as_str());
    proof {
        assert(m@ == "JWT verification error: "@ + e@);
        if let Ok((sub, cid, iat, _)) = dd {
            assert("JWT verification error: "@ + ("JSON error: missing field `"@ + missing_field(
                sub is None,
                cid is None,
                iat is None,
            ) + "`"@) =~= "JWT verification error: "@ + "JSON error: missing field `"@ + missing_field(
                sub is None,
                cid is None,
                iat is None,
            ) + "`"@);
        }
    }
    Err(m)
}

/// Verify a JWT access token and return the claims: the token is decoded
/// with `sub` and `exp` required, and answered as `claims_of_decoded` does.
pub fn verify_jwt(token: &str, secret: &str) -> (r: Result<JwtClaims, String>)
    ensures
        exists|d: Result<DecodedClaims, String>| decoded_from(token@, secret@, d) && #[trigger] claims_answer(d, r),
        verify_jwt_post(token@, secret@, r),
        r matches Err(m) ==> verification_error(m@),
{
    let required = vec![String::from_str("sub"), String::from_str("exp")];
    let d = jwt_decode(token, secret, &required);
    let ghost dd = d;
    let r = claims_of_decoded(d);
    let ghost rr = r;
    proof {
        assert(claims_answer(dd, rr));
        if let Err(m) = rr {
            match dd {
                Ok((sub, cid, iat, _)) => {
                    let reason = "JSON error: missing field `"@ + missing_field(
                        sub is None,
                        cid is None,
                        iat is None,
                    ) + "`"@;
                    assert(m@ =~= "JWT verification error: "@ + reason);
                },
                Err(e) => {
                    assert(m@ == "JWT verification error: "@ + e@);
                },
            }
        }
    }
    r
}

/// A token issued for an agent and credential, when accepted under the same
/// secret, names that agent and credential and the times it was issued with.
pub proof fn issued_token_verifies_to_its_claims(
    agent_id: Seq<char>,
    credential_id: Seq<char>,
    now: i64,
    secret: Seq<char>,
    token: Seq<char>,
    r: Result<JwtClaims, String>,
)
    requires
        now + consts::ACCESS_TOKEN_TTL_SECS <= i64::MAX,
        token == spec_jwt_encode(
            agent_id,
            credential_id,
            now,
            (now + consts::ACCESS_TOKEN_TTL_SECS) as i64,
            secret,
        ),
        verify_jwt_post(token, secret, r),
    ensures
        r matches Ok(c) ==> c.sub@ == agent_id && c.cid@ == credential_id && c.iat == now && c.exp
            == now + consts::ACCESS_TOKEN_TTL_SECS && c.exp > c.iat,
{
    assert(token == spec_jwt_encode(
        agent_id,
        credential_id,
        now,
        (now + consts::ACCESS_TOKEN_TTL_SECS) as i64,
        secret,
    ));
}

} // verus!
