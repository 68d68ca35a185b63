use agentim::api::credentials::{
    activate_credential, challenge, generate_claim, list_auth_events, record_auth_event, verify,
};
use agentim::api::dto::{ActivateCredentialRequest, ChallengeRequest, VerifyRequest};
use agentim::auth::token::{hash_claim_code, verify_jwt};
use agentim::challenges::{challenge_key, ChallengeEntry, ChallengeStore};
use agentim::client::{public_key_base64, sign_nonce};
use agentim::entity::{agent, agent_credential, claim_token};
use base64::Engine;
use ed25519_dalek::Signer;

const SECRET: &str = "test-jwt-secret-for-credentials";

fn now() -> i64 {
    chrono::Utc::now().timestamp_micros()
}

fn test_agent() -> agent::Model {
    agent::Model {
        id: "test-agent".into(),
        user_id: "u1".into(),
        name: "Test Agent".into(),
        reauth_required: false,
        avatar_url: None,
        bio: None,
        status: agent::AgentStatus::Active,
        created_at: now(),
        updated_at: now(),
    }
}

fn secret_key(seed: u8) -> Vec<u8> {
    vec![seed; 32]
}

fn credential(id: &str, public_key: &str, status: agent_credential::CredentialStatus) -> agent_credential::Model {
    agent_credential::Model {
        id: id.into(),
        agent_id: "test-agent".into(),
        public_key: public_key.into(),
        public_key_fp: "fp1234567890abcd".into(),
        status,
        revoke_reason: None,
        instance_label: None,
        issued_at: now(),
        last_used_at: None,
        revoked_at: None,
        replaced_by_id: None,
    }
}

fn claim_for(raw_code: &str, expires_at: i64) -> claim_token::Model {
    claim_token::Model {
        id: "claim-1".into(),
        agent_id: "test-agent".into(),
        user_id: "u1".into(),
        code_hash: hash_claim_code(raw_code),
        purpose: claim_token::ClaimPurpose::Enroll,
        status: claim_token::ClaimStatus::Active,
        created_at: now(),
        expires_at,
        used_at: None,
        created_from_ip: None,
    }
}

#[test]
fn claim_generates_code_and_stores_hash() {
    let t = now();
    let issue = generate_claim(Some(test_agent()), "test-agent", "u1", &vec![], &vec![], t).unwrap();
    assert!(issue.response.claim_code.starts_with("clm_"));
    assert_eq!(issue.claim.code_hash, hash_claim_code(&issue.response.claim_code));
    assert_ne!(issue.claim.code_hash, issue.response.claim_code);
    assert_eq!(issue.claim.purpose, claim_token::ClaimPurpose::Enroll);
    assert_eq!(issue.claim.status, claim_token::ClaimStatus::Active);
    assert_eq!(issue.claim.expires_at, t + 600_000_000);
    assert!(issue.revoked.is_empty());
}

#[test]
fn generate_claim_revokes_old_codes_and_recovers() {
    let t = now();
    let old = claim_for("clm_old", t + 1);
    let cred = credential("cred-1", "key", agent_credential::CredentialStatus::Active);
    let issue = generate_claim(Some(test_agent()), "test-agent", "u1", &vec![cred], &vec![old], t).unwrap();
    assert_eq!(issue.revoked.len(), 1);
    assert_eq!(issue.revoked[0].status, claim_token::ClaimStatus::Revoked);
    assert_eq!(issue.claim.purpose, claim_token::ClaimPurpose::Recover);
}

#[test]
fn generate_claim_requires_owner() {
    let e = generate_claim(Some(test_agent()), "test-agent", "u2", &vec![], &vec![], now()).err().unwrap();
    assert_eq!(e.status_code(), 403);
}

#[test]
fn activate_credential_full_flow() {
    let t = now();
    let pk = public_key_base64(&secret_key(7));
    let claims = vec![claim_for("clm_code", t + 600_000_000)];
    let req = ActivateCredentialRequest {
        claim_code: "clm_code".into(),
        public_key: pk.clone(),
        instance_label: Some("test-instance".into()),
    };
    let mut flagged = test_agent();
    flagged.reauth_required = true;
    let out = activate_credential(Some(flagged), "test-agent", req, &claims, &vec![], t);
    assert!(out.expired_claim.is_none());
    let act = out.result.unwrap();
    assert_eq!(act.credential.public_key, pk);
    assert_eq!(act.credential.public_key_fp.len(), 16);
    assert_eq!(act.credential.status, agent_credential::CredentialStatus::Active);
    assert_eq!(act.credential.instance_label, Some("test-instance".into()));
    assert_eq!(act.claim.status, claim_token::ClaimStatus::Used);
    assert_eq!(act.claim.used_at, Some(t));
    assert!(!act.agent.reauth_required);
    assert_eq!(act.response.credential_id, act.credential.id);
    assert_eq!(act.response.public_key_fingerprint, act.credential.public_key_fp);
}

#[test]
fn activate_replaces_old_credential() {
    let t = now();
    let pk = public_key_base64(&secret_key(8));
    let old = credential("old-cred", "oldkey", agent_credential::CredentialStatus::Active);
    let claims = vec![claim_for("clm_code", t + 600_000_000)];
    let req = ActivateCredentialRequest { claim_code: "clm_code".into(), public_key: pk, instance_label: None };
    let act = activate_credential(Some(test_agent()), "test-agent", req, &claims, &vec![old], t).result.unwrap();
    assert_eq!(act.replaced.len(), 1);
    assert_eq!(act.replaced[0].id, "old-cred");
    assert_eq!(act.replaced[0].status, agent_credential::CredentialStatus::Replaced);
    assert_eq!(act.replaced[0].revoke_reason, Some("replaced".into()));
    assert_eq!(act.replaced[0].replaced_by_id, Some(act.credential.id.clone()));
}

#[test]
fn activate_invalid_claim_code_rejected() {
    let t = now();
    let claims = vec![claim_for("clm_code", t + 600_000_000)];
    let req = ActivateCredentialRequest {
        claim_code: "clm_invalid_code_that_does_not_exist".into(),
        public_key: public_key_base64(&secret_key(9)),
        instance_label: None,
    };
    let out = activate_credential(Some(test_agent()), "test-agent", req, &claims, &vec![], t);
    let e = out.result.err().unwrap();
    assert_eq!(e.status_code(), 401);
    assert_eq!(e.message(), "unauthorized: invalid or expired claim code");
}

#[test]
fn activate_expired_claim_is_marked_expired() {
    let t = now();
    let claims = vec![claim_for("clm_code", t - 1)];
    let req = ActivateCredentialRequest {
        claim_code: "clm_code".into(),
        public_key: public_key_base64(&secret_key(9)),
        instance_label: None,
    };
    let out = activate_credential(Some(test_agent()), "test-agent", req, &claims, &vec![], t);
    assert_eq!(out.result.err().unwrap().message(), "unauthorized: claim code expired");
    assert_eq!(out.expired_claim.unwrap().status, claim_token::ClaimStatus::Expired);
}

#[test]
fn activate_bad_public_keys_rejected() {
    let t = now();
    let claims = vec![claim_for("clm_code", t + 600_000_000)];
    let cases = [
        ("not base64!", "validation: invalid base64 public key"),
        ("AAAA", "validation: public key must be 32 bytes (Ed25519)"),
    ];
    for (key, msg) in cases {
        let req = ActivateCredentialRequest { claim_code: "clm_code".into(), public_key: key.into(), instance_label: None };
        let out = activate_credential(Some(test_agent()), "test-agent", req, &claims, &vec![], t);
        assert_eq!(out.result.err().unwrap().message(), msg);
    }
    let e = activate_credential(None, "ghost", ActivateCredentialRequest {
        claim_code: "clm_code".into(),
        public_key: "x".into(),
        instance_label: None,
    }, &claims, &vec![], t).result.err().unwrap();
    assert_eq!(e.message(), "not found: agent 'ghost' not found");
}

fn challenge_for(store: &mut ChallengeStore, cred: &agent_credential::Model, t: i64) -> String {
    let req = ChallengeRequest { agent_id: "test-agent".into(), credential_id: cred.id.clone() };
    let issued = challenge(store, &req, Some(&test_agent()), Some(cred), t).unwrap();
    assert_eq!(issued.event.event_type, "challenge_issued");
    assert!(issued.event.success);
    issued.response.nonce
}

#[test]
fn challenge_verify_full_flow() {
    let t = now();
    let sk = secret_key(11);
    let cred = credential("cred-1", &public_key_base64(&sk), agent_credential::CredentialStatus::Active);
    let mut store = ChallengeStore::new();
    let nonce = challenge_for(&mut store, &cred, t);
    let req = VerifyRequest {
        agent_id: "test-agent".into(),
        credential_id: "cred-1".into(),
        nonce: nonce.clone(),
        signature: sign_nonce(&sk, &nonce),
    };
    let out = verify(&mut store, &req, Some(&cred), SECRET, t);
    let resp = out.result.unwrap();
    let claims = verify_jwt(&resp.access_token, SECRET).unwrap();
    assert_eq!(claims.sub, "test-agent");
    assert_eq!(claims.cid, "cred-1");
    let event = out.event.unwrap();
    assert_eq!(event.event_type, "token_issued");
    assert!(event.success);
    assert!(!out.assess_risk);
}

#[test]
fn verify_wrong_signature_rejected() {
    let t = now();
    let cred = credential("cred-1", &public_key_base64(&secret_key(11)), agent_credential::CredentialStatus::Active);
    let mut store = ChallengeStore::new();
    let nonce = challenge_for(&mut store, &cred, t);
    let req = VerifyRequest {
        agent_id: "test-agent".into(),
        credential_id: "cred-1".into(),
        nonce: nonce.clone(),
        signature: sign_nonce(&secret_key(12), &nonce),
    };
    let out = verify(&mut store, &req, Some(&cred), SECRET, t);
    assert_eq!(out.result.err().unwrap().message(), "unauthorized: invalid signature");
    let event = out.event.unwrap();
    assert_eq!(event.event_type, "auth_failed");
    assert_eq!(event.reason, Some("invalid signature".into()));
    assert!(out.assess_risk);
}

#[test]
fn verify_nonce_replay_rejected() {
    let t = now();
    let sk = secret_key(13);
    let cred = credential("cred-1", &public_key_base64(&sk), agent_credential::CredentialStatus::Active);
    let mut store = ChallengeStore::new();
    let nonce = challenge_for(&mut store, &cred, t);
    let req = VerifyRequest {
        agent_id: "test-agent".into(),
        credential_id: "cred-1".into(),
        nonce: nonce.clone(),
        signature: sign_nonce(&sk, &nonce),
    };
    assert!(verify(&mut store, &req, Some(&cred), SECRET, t).result.is_ok());
    let again = verify(&mut store, &req, Some(&cred), SECRET, t);
    assert_eq!(again.result.err().unwrap().message(), "unauthorized: no pending challenge");
    assert!(again.event.is_none());
}

#[test]
fn challenge_revoked_credential_rejected() {
    let cred = credential("cred-1", "key", agent_credential::CredentialStatus::Revoked);
    let mut store = ChallengeStore::new();
    let req = ChallengeRequest { agent_id: "test-agent".into(), credential_id: "cred-1".into() };
    let e = challenge(&mut store, &req, Some(&test_agent()), Some(&cred), now()).err().unwrap();
    assert_eq!(e.status_code(), 401);
    assert_eq!(e.message(), "unauthorized: credential not active");
}

#[test]
fn verify_updates_last_used_at() {
    let t = now();
    let sk = secret_key(14);
    let cred = credential("cred-1", &public_key_base64(&sk), agent_credential::CredentialStatus::Active);
    assert!(cred.last_used_at.is_none());
    let mut store = ChallengeStore::new();
    let nonce = challenge_for(&mut store, &cred, t);
    let req = VerifyRequest {
        agent_id: "test-agent".into(),
        credential_id: "cred-1".into(),
        nonce: nonce.clone(),
        signature: sign_nonce(&sk, &nonce),
    };
    let out = verify(&mut store, &req, Some(&cred), SECRET, t);
    assert_eq!(out.credential_update.unwrap().last_used_at, Some(t));
}

#[test]
fn verify_mismatched_and_expired_nonces() {
    let t = now();
    let cred = credential("cred-1", "key", agent_credential::CredentialStatus::Active);
    let mut store = ChallengeStore::new();
    store.insert(challenge_key("test-agent", "cred-1"), ChallengeEntry { nonce: "n1".into(), expires_at: t - 1 });
    let req = VerifyRequest {
        agent_id: "test-agent".into(),
        credential_id: "cred-1".into(),
        nonce: "other".into(),
        signature: "sig".into(),
    };
    let out = verify(&mut store, &req, Some(&cred), SECRET, t);
    assert_eq!(out.result.err().unwrap().message(), "unauthorized: invalid nonce");
    assert_eq!(out.event.unwrap().reason, Some("nonce mismatch".into()));
    store.insert(challenge_key("test-agent", "cred-1"), ChallengeEntry { nonce: "n1".into(), expires_at: t - 1 });
    let req = VerifyRequest { nonce: "n1".into(), ..req };
    let out = verify(&mut store, &req, Some(&cred), SECRET, t);
    assert_eq!(out.result.err().unwrap().message(), "unauthorized: challenge expired");
    assert_eq!(out.event.unwrap().reason, Some("nonce expired".into()));
    assert!(out.assess_risk);
}

#[test]
fn record_and_list_auth_events() {
    let t = now();
    let e1 = record_auth_event("test-agent", Some("cred-1"), "auth_failed", false, Some("nonce mismatch"), t);
    let e2 = record_auth_event("other-agent", None, "challenge_issued", true, None, t);
    assert_eq!(e1.id.len(), 36);
    let listed = list_auth_events(Some(test_agent()), "test-agent", "u1", &vec![e1, e2]).unwrap();
    assert_eq!(listed.len(), 1);
    assert_eq!(listed[0].event_type, "auth_failed");
    assert_eq!(listed[0].reason, Some("nonce mismatch".into()));
}

#[test]
fn client_signatures_match_ed25519_dalek() {
    let sk = secret_key(21);
    let key = ed25519_dalek::SigningKey::from_bytes(&[21u8; 32]);
    let expected_pk = base64::engine::general_purpose::STANDARD.encode(key.verifying_key().as_bytes());
    assert_eq!(public_key_base64(&sk), expected_pk);
    let expected_sig = base64::engine::general_purpose::STANDARD.encode(key.sign(b"nonce").to_bytes());
    assert_eq!(sign_nonce(&sk, "nonce"), expected_sig);
}
