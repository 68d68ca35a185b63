use base64::Engine;
use agentim::auth::token::{
    claim_code_from, claims_of_decoded, create_jwt, create_jwt_at, generate_challenge_nonce, generate_claim_code, hash_claim_code,
    public_key_fingerprint, verify_jwt,
};

#[test]
fn claim_code_has_correct_prefix() {
    let code = generate_claim_code();
    assert!(code.starts_with("clm_"));
}

#[test]
fn claim_code_has_correct_length() {
    let code = generate_claim_code();
    // "clm_" (4) + 64 hex chars (32 bytes)
    assert_eq!(code.len(), 4 + 64);
}

#[test]
fn claim_code_hash_is_deterministic() {
    let code = "clm_abc123";
    assert_eq!(hash_claim_code(code), hash_claim_code(code));
}

#[test]
fn claim_code_hash_differs_from_raw() {
    let code = generate_claim_code();
    assert_ne!(hash_claim_code(&code), code);
}

#[test]
fn different_claim_codes_have_different_hashes() {
    let c1 = generate_claim_code();
    let c2 = generate_claim_code();
    assert_ne!(hash_claim_code(&c1), hash_claim_code(&c2));
}

#[test]
fn challenge_nonce_is_non_empty() {
    let nonce = generate_challenge_nonce();
    assert!(!nonce.is_empty());
    // 32 bytes base64 = 44 chars
    assert_eq!(nonce.len(), 44);
    let decoded = base64::engine::general_purpose::STANDARD.decode(&nonce).unwrap();
    assert_eq!(decoded.len(), 32);
}

#[test]
fn challenge_nonces_are_unique() {
    let n1 = generate_challenge_nonce();
    let n2 = generate_challenge_nonce();
    assert_ne!(n1, n2);
}

#[test]
fn public_key_fingerprint_is_16_hex() {
    let fp = public_key_fingerprint(b"test-public-key");
    assert_eq!(fp.len(), 16);
    assert!(fp.chars().all(|c| c.is_ascii_hexdigit()));
}

#[test]
fn jwt_create_and_verify() {
    let secret = "test-secret-key-for-jwt";
    let token = create_jwt("my-agent", "cred-1", secret).unwrap();
    assert!(!token.is_empty());
    let claims = verify_jwt(&token, secret).unwrap();
    assert_eq!(claims.sub, "my-agent");
    assert_eq!(claims.cid, "cred-1");
    assert!(claims.exp > claims.iat);
}

#[test]
fn jwt_wrong_secret_fails() {
    let token = create_jwt("my-agent", "cred-1", "secret-a").unwrap();
    assert!(verify_jwt(&token, "secret-b").is_err());
}

#[test]
fn jwt_expired_token_fails() {
    let mut claims = serde_json::Map::new();
    claims.insert("sub".to_string(), "my-agent".into());
    claims.insert("cid".to_string(), "cred-1".into());
    claims.insert("iat".to_string(), 1000.into());
    claims.insert("exp".to_string(), 1001.into());
    let token = jsonwebtoken::encode(
        &jsonwebtoken::Header::default(),
        &claims,
        &jsonwebtoken::EncodingKey::from_secret(b"test-secret"),
    )
    .unwrap();
    let result = verify_jwt(&token, "test-secret");
    assert!(result.is_err());
    let err = result.err().unwrap();
    assert!(
        err.contains("expired") || err.contains("Expired"),
        "Expected 'expired' in error but got: {}",
        err
    );
}

#[test]
fn claim_code_hash_known_value() {
    // SHA-256 of the empty text.
    assert_eq!(
        hash_claim_code(""),
        "e3b0c44298fc1c149afbf4c8996fb92427ae41e4649b934ca495991b7852b855"
    );
}

#[test]
fn fingerprint_known_value() {
    // First 16 hex digits of SHA-256("abc").
    assert_eq!(public_key_fingerprint(b"abc"), "ba7816bf8f01cfea");
}

#[test]
fn jwt_at_a_given_time_names_it() {
    let now = 1_700_000_000;
    let token = create_jwt_at("a", "c", "s", now).unwrap();
    let parts: Vec<&str> = token.split('.').collect();
    assert_eq!(parts.len(), 3);
    // A token issued in the past has expired by now.
    assert!(verify_jwt(&token, "s").is_err());
}

#[test]
fn refused_token_message_names_verification() {
    let err = verify_jwt("not.a.jwt", "test-secret").err().unwrap();
    assert!(err.starts_with("JWT verification error: "));
}

#[test]
fn claim_code_from_bytes() {
    assert_eq!(claim_code_from(&[0x00, 0xab, 0x7f]), "clm_00ab7f");
    assert_eq!(claim_code_from(&[]), "clm_");
}

#[test]
fn create_jwt_expires_ten_minutes_after_issue() {
    let token = create_jwt("my-agent", "cred-1", "test-secret-key-for-jwt").unwrap();
    let c = verify_jwt(&token, "test-secret-key-for-jwt").unwrap();
    assert_eq!(c.sub, "my-agent");
    assert_eq!(c.cid, "cred-1");
    assert_eq!(c.exp, c.iat + 600);
}

#[test]
fn token_claims_keep_their_order() {
    let token = create_jwt_at("my-agent", "cred-1", "s", 1_700_000_000).unwrap();
    let payload = token.split('.').nth(1).unwrap();
    let json = base64::engine::general_purpose::URL_SAFE_NO_PAD.decode(payload).unwrap();
    assert_eq!(
        String::from_utf8(json).unwrap(),
        r#"{"sub":"my-agent","cid":"cred-1","iat":1700000000,"exp":1700000600}"#
    );
}

#[test]
fn token_without_cid_names_the_missing_field() {
    let now = chrono::Utc::now().timestamp();
    let mut claims = serde_json::Map::new();
    claims.insert("sub".to_string(), "my-agent".into());
    claims.insert("iat".to_string(), now.into());
    claims.insert("exp".to_string(), (now + 600).into());
    let token = jsonwebtoken::encode(
        &jsonwebtoken::Header::default(),
        &claims,
        &jsonwebtoken::EncodingKey::from_secret(b"k"),
    )
    .unwrap();
    let err = verify_jwt(&token, "k").err().unwrap();
    assert_eq!(err, "JWT verification error: JSON error: missing field `cid`");
}

#[test]
fn decoded_claims_all_present_are_the_answer() {
    let d = Ok((Some("a1".to_string()), Some("c1".to_string()), Some(100), Some(700)));
    let c = claims_of_decoded(d).ok().unwrap();
    assert_eq!(c.sub, "a1");
    assert_eq!(c.cid, "c1");
    assert_eq!(c.iat, 100);
    assert_eq!(c.exp, 700);
}

#[test]
fn decoded_claims_without_sub_name_sub() {
    let d = Ok((None, None, None, Some(700)));
    let err = claims_of_decoded(d).err().unwrap();
    assert_eq!(err, "JWT verification error: JSON error: missing field `sub`");
}

#[test]
fn decoded_claims_without_cid_name_cid() {
    let d = Ok((Some("a1".to_string()), None, Some(100), Some(700)));
    let err = claims_of_decoded(d).err().unwrap();
    assert_eq!(err, "JWT verification error: JSON error: missing field `cid`");
}

#[test]
fn decoded_claims_without_iat_name_iat() {
    let d = Ok((Some("a1".to_string()), Some("c1".to_string()), None, Some(700)));
    let err = claims_of_decoded(d).err().unwrap();
    assert_eq!(err, "JWT verification error: JSON error: missing field `iat`");
}

#[test]
fn decoded_claims_without_exp_name_exp() {
    let d = Ok((Some("a1".to_string()), Some("c1".to_string()), Some(100), None));
    let err = claims_of_decoded(d).err().unwrap();
    assert_eq!(err, "JWT verification error: JSON error: missing field `exp`");
}

#[test]
fn refused_decoding_keeps_its_reason() {
    let err = claims_of_decoded(Err("ExpiredSignature".to_string())).err().unwrap();
    assert_eq!(err, "JWT verification error: ExpiredSignature");
}
