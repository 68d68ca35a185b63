//! Agent credentials: claim codes, activation of Ed25519 public keys, and the
//! challenge / verify handshake that issues access tokens.
//!
//! Each operation takes the rows it reads and the current instant (UTC
//! microseconds), and gives back the rows to write and the answer.

use vstd::prelude::*;
use vstd::string::*;
use crate::api::agents::{agent_not_found, agent_not_found_text, find_owned_agent, owned_agent_result};
use crate::api::dto::{
    ActivateCredentialRequest, ActivateCredentialResponse, AuthEventResponse, ChallengeRequest,
    ChallengeResponse, ClaimCodeResponse, VerifyRequest, VerifyResponse,
};
use crate::auth::token;
use crate::challenges::{ChallengeEntry, ChallengeStore, challenge_key, key_of};
use crate::clock::{self, valid_time};
use crate::consts;
use crate::entity::{agent, agent_credential, auth_event, claim_token};
use crate::error::{
    AppError, fails_forbidden, fails_internal, fails_not_found, fails_unauthorized, fails_validation,
};
use crate::crypto::{
    ed25519_key_ok, ed25519_verify, spec_ed25519_key_ok, spec_ed25519_public, spec_ed25519_sign,
    spec_ed25519_verify,
};
use crate::ids::new_id;
use crate::text::{self, opt_str, opt_text};

verus! {

// ── Time ──

/// `now` and the instant `secs` seconds later are both representable.
pub open spec fn room_after(now: i64, secs: u64) -> bool {
    valid_time(now) && clock::plus_secs(now, secs) <= clock::TIME_MAX_MICROS
}

/// The instant `secs` seconds after `now`.
fn later(now: i64, secs: u64) -> (r: i64)
    requires
        room_after(now, secs),
        secs <= 1000000,
    ensures
        r == clock::plus_secs(now, secs),
        valid_time(r),
{
    proof {
        assert(secs * 1000000 <= 1000000000000) by (nonlinear_arith)
            requires
                secs <= 1000000,
        ;
    }
    now + (secs as i64) * clock::MICROS_PER_SEC
}

// ── Authentication events ──

/// `e` is a new event of the given kind for the agent, recorded at `now`, with
/// a fresh 36-character id and no client details.
pub open spec fn is_event(
    e: auth_event::Model,
    agent_id: Seq<char>,
    credential_id: Option<Seq<char>>,
    event_type: Seq<char>,
    success: bool,
    reason: Option<Seq<char>>,
    now: i64,
) -> bool {
    &&& e.id@.len() == 36
    &&& e.agent_id@ == agent_id
    &&& opt_text(e.credential_id) == credential_id
    &&& e.event_type@ == event_type
    &&& e.success == success
    &&& opt_text(e.reason) == reason
    &&& e.source_ip is None
    &&& e.client_name is None
    &&& e.client_version is None
    &&& e.instance_label is None
    &&& e.created_at == now
}

/// The row of an authentication event, with a fresh id.
pub fn record_auth_event(
    agent_id: &str,
    credential_id: Option<&str>,
    event_type: &str,
    success: bool,
    reason: Option<&str>,
    now: i64,
) -> (r: auth_event::Model)
    ensures
        is_event(r, agent_id@, opt_str(credential_id), event_type@, success, opt_str(reason), now),
{
    auth_event::Model {
        id: new_id(),
        agent_id: String::from_str(agent_id),
        credential_id: text::opt_string(credential_id),
        event_type: String::from_str(event_type),
        success,
        reason: text::opt_string(reason),
        source_ip: None,
        client_name: None,
        client_version: None,
        instance_label: None,
        created_at: now,
    }
}

// ── Challenge ──

/// A challenge issued: the answer, and the event to record.
pub struct ChallengeIssued {
    pub response: ChallengeResponse,
    pub event: auth_event::Model,
}

/// Issue a challenge nonce for an agent's credential. `agent` and `cred` are
/// the rows stored under the requested ids, if any. On success the nonce is
/// stored, to expire `CHALLENGE_NONCE_TTL_SECS` after `now`.
pub fn challenge(
    store: &mut ChallengeStore,
    req: &ChallengeRequest,
    agent: Option<&agent::Model>,
    cred: Option<&agent_credential::Model>,
    now: i64,
) -> (r: Result<ChallengeIssued, AppError>)
    requires
        room_after(now, consts::CHALLENGE_NONCE_TTL_SECS),
    ensures
        agent is None ==> fails_not_found(r, agent_not_found_text(req.agent_id@)),
        agent is Some && cred is None ==> fails_not_found(r, "credential not found"@),
        agent is Some && (cred matches Some(c) && c.status != agent_credential::CredentialStatus::Active)
            ==> fails_unauthorized(r, "credential not active"@),
        agent is Some && (cred matches Some(c) && c.status == agent_credential::CredentialStatus::Active
            && c.agent_id@ != req.agent_id@) ==> fails_unauthorized(
            r,
            "credential does not belong to agent"@,
        ),
        r is Ok <==> (agent is Some && (cred matches Some(c) && c.status
            == agent_credential::CredentialStatus::Active && c.agent_id@ == req.agent_id@)),
        r is Err ==> final(store).view() == old(store).view(),
        r matches Ok(i) ==> {
            &&& token::is_challenge_nonce(i.response.nonce@)
            &&& i.response.nonce@.len() == 44
            &&& i.response.expires_at@ == clock::spec_rfc3339(
                clock::plus_secs(now, consts::CHALLENGE_NONCE_TTL_SECS) as i64,
            )
            &&& final(store).view() == old(store).view().insert(
                key_of(req.agent_id@, req.credential_id@),
                (i.response.nonce@, clock::plus_secs(now, consts::CHALLENGE_NONCE_TTL_SECS) as i64),
            )
            &&& is_event(
                i.event,
                req.agent_id@,
                Some(req.credential_id@),
                "challenge_issued"@,
                true,
                None,
                now,
            )
        },
{
    if agent.is_none() {
        return Err(agent_not_found(req.agent_id.as_str()));
    }
    let c = match cred {
        None => {
            return Err(AppError::NotFound(String::from_str("credential not found")));
        },
        Some(c) => c,
    };
    if c.status != agent_credential::CredentialStatus::Active {
        return Err(AppError::Unauthorized(String::from_str("credential not active")));
    }
    if !text::text_eq(c.agent_id.as_str(), req.agent_id.as_str()) {
        return Err(AppError::Unauthorized(String::from_str("credential does not belong to agent")));
    }
    let nonce = token::generate_challenge_nonce();
    let expires_at = later(now, consts::CHALLENGE_NONCE_TTL_SECS);
    let key = challenge_key(req.agent_id.as_str(), req.credential_id.as_str());
    store.insert(key, ChallengeEntry { nonce: nonce.clone(), expires_at });
    proof {
        reveal_strlit("challenge_issued");
    }
    let event = record_auth_event(
        req.agent_id.as_str(),
        Some(req.credential_id.as_str()),
        "challenge_issued",
        true,
        None,
        now,
    );
    Ok(ChallengeIssued {
        response: ChallengeResponse { nonce, expires_at: clock::rfc3339(expires_at) },
        event,
    })
}

// ── Verify ──

/// How a signed challenge is judged, in the order the checks are made.
pub enum VerifyVerdict {
    NoPendingChallenge,
    NonceMismatch,
    NonceExpired,
    CredentialMissing,
    CredentialInactive,
    CredentialForeign,
    StoredKeyNotBase64,
    StoredKeyBadLength,
    StoredKeyInvalid,
    SignatureNotBase64,
    SignatureBadLength,
    SignatureInvalid,
    Accepted,
}

/// The verdict on a signed challenge, given the pending challenge of the
/// credential (nonce, expiry) and the credential stored under the requested id.
pub open spec fn verify_verdict(
    pending: Option<(Seq<char>, i64)>,
    req: VerifyRequest,
    cred: Option<agent_credential::Model>,
    now: i64,
) -> VerifyVerdict {
    match pending {
        None => VerifyVerdict::NoPendingChallenge,
        Some(p) => if p.0 != req.nonce@ {
            VerifyVerdict::NonceMismatch
        } else if now > p.1 {
            VerifyVerdict::NonceExpired
        } else {
            match cred {
                None => VerifyVerdict::CredentialMissing,
                Some(c) => if c.status != agent_credential::CredentialStatus::Active {
                    VerifyVerdict::CredentialInactive
                } else if c.agent_id@ != req.agent_id@ {
                    VerifyVerdict::CredentialForeign
                } else {
                    match token::spec_base64_decode(c.public_key@) {
                        None => VerifyVerdict::StoredKeyNotBase64,
                        Some(pk) => if pk.len() != 32 {
                            VerifyVerdict::StoredKeyBadLength
                        } else if !spec_ed25519_key_ok(pk) {
                            VerifyVerdict::StoredKeyInvalid
                        } else {
                            match token::spec_base64_decode(req.signature@) {
                                None => VerifyVerdict::SignatureNotBase64,
                                Some(sig) => if sig.len() != 64 {
                                    VerifyVerdict::SignatureBadLength
                                } else if !spec_ed25519_verify(
                                    pk,
                                    vstd::utf8::encode_utf8(req.nonce@),
                                    sig,
                                ) {
                                    VerifyVerdict::SignatureInvalid
                                } else {
                                    VerifyVerdict::Accepted
                                }
                            }
                        },
                    }
                },
            }
        },
    }
}

/// The error a refused verification is answered with.
pub open spec fn verdict_error<T>(v: VerifyVerdict, r: Result<T, AppError>) -> bool {
    match v {
        VerifyVerdict::NoPendingChallenge => fails_unauthorized(r, "no pending challenge"@),
        VerifyVerdict::NonceMismatch => fails_unauthorized(r, "invalid nonce"@),
        VerifyVerdict::NonceExpired => fails_unauthorized(r, "challenge expired"@),
        VerifyVerdict::CredentialMissing => fails_unauthorized(r, "credential not found"@),
        VerifyVerdict::CredentialInactive => fails_unauthorized(r, "credential not active"@),
        VerifyVerdict::CredentialForeign => fails_unauthorized(r, "credential does not belong to agent"@),
        VerifyVerdict::StoredKeyNotBase64 => fails_internal(r, "stored public key is invalid base64"@),
        VerifyVerdict::StoredKeyBadLength => fails_internal(r, "stored public key is invalid"@),
        VerifyVerdict::StoredKeyInvalid => fails_internal(r, "stored public key is invalid Ed25519"@),
        VerifyVerdict::SignatureNotBase64 => fails_unauthorized(r, "invalid base64 signature"@),
        VerifyVerdict::SignatureBadLength => fails_unauthorized(r, "signature must be 64 bytes"@),
        VerifyVerdict::SignatureInvalid => fails_unauthorized(r, "invalid signature"@),
        VerifyVerdict::Accepted => r is Ok,
    }
}

/// The reason recorded with a failed verification, for the verdicts that are recorded.
pub open spec fn verdict_reason(v: VerifyVerdict) -> Option<Seq<char>> {
    match v {
        VerifyVerdict::NonceMismatch => Some("nonce mismatch"@),
        VerifyVerdict::NonceExpired => Some("nonce expired"@),
        VerifyVerdict::CredentialInactive => Some("credential not active"@),
        VerifyVerdict::SignatureInvalid => Some("invalid signature"@),
        _ => None,
    }
}

/// The verdicts after which the risk of the credential is assessed.
pub open spec fn verdict_assesses_risk(v: VerifyVerdict) -> bool {
    v is NonceMismatch || v is NonceExpired || v is SignatureInvalid
}

/// What a verification gives: the answer, the event to record, whether to
/// assess the credential's risk once the event is recorded, and the
/// credential to save with its new last use.
pub struct VerifyOutcome {
    pub result: Result<VerifyResponse, AppError>,
    pub event: Option<auth_event::Model>,
    pub assess_risk: bool,
    pub credential_update: Option<agent_credential::Model>,
}

/// The credential `c` used at `now`: only the last use changes.
pub open spec fn used_at(c: agent_credential::Model, now: i64, u: agent_credential::Model) -> bool {
    u == (agent_credential::Model { last_used_at: Some(now), ..c })
}

/// A verification is refused because no challenge was pending for the
/// credential, with nothing to record.
pub open spec fn refused_without_challenge(r: VerifyOutcome) -> bool {
    &&& fails_unauthorized(r.result, "no pending challenge"@)
    &&& r.event is None
    &&& !r.assess_risk
    &&& r.credential_update is None
}

/// A refusal with nothing to record.
fn refusal(e: AppError) -> (o: VerifyOutcome)
    ensures
        o.result == Err::<VerifyResponse, AppError>(e),
        o.event is None,
        !o.assess_risk,
        o.credential_update is None,
{
    VerifyOutcome { result: Err(e), event: None, assess_risk: false, credential_update: None }
}

/// Verify a signed challenge and issue an access token. The pending challenge
/// of the credential is taken out of the store whatever the verdict. `cred` is
/// the credential stored under the requested id, if any.
pub fn verify(
    store: &mut ChallengeStore,
    req: &VerifyRequest,
    cred: Option<&agent_credential::Model>,
    secret: &str,
    now: i64,
) -> (r: VerifyOutcome)
    requires
        room_after(now, consts::ACCESS_TOKEN_TTL_SECS),
    ensures
        final(store).view() == old(store).view().remove(key_of(req.agent_id@, req.credential_id@)),
        ({
            let v = verify_verdict(
                old(store).view().get(key_of(req.agent_id@, req.credential_id@)),
                *req,
                match cred {
                    Some(c) => Some(*c),
                    None => None,
                },
                now,
            );
            &&& verdict_error(v, r.result)
            &&& r.assess_risk == verdict_assesses_risk(v)
            &&& (v is NoPendingChallenge ==> refused_without_challenge(r))
            &&& (verdict_reason(v) matches Some(reason) ==> r.event matches Some(e) && is_event(
                e,
                req.agent_id@,
                Some(req.credential_id@),
                "auth_failed"@,
                false,
                Some(reason),
                now,
            ))
            &&& (!(v is Accepted) && verdict_reason(v) is None ==> r.event is None)
            &&& (!(v is Accepted) ==> r.credential_update is None)
            &&& (v is Accepted ==> {
                &&& r.result matches Ok(resp) && resp.access_token@ == token::spec_jwt_encode(
                    req.agent_id@,
                    req.credential_id@,
                    clock::secs_of(now) as i64,
                    (clock::secs_of(now) + consts::ACCESS_TOKEN_TTL_SECS) as i64,
                    secret@,
                ) && resp.expires_at@ == clock::spec_rfc3339(
                    clock::plus_secs(now, consts::ACCESS_TOKEN_TTL_SECS) as i64,
                )
                &&& r.event matches Some(e) && is_event(
                    e,
                    req.agent_id@,
                    Some(req.credential_id@),
                    "token_issued"@,
                    true,
                    None,
                    now,
                )
                &&& r.credential_update matches Some(u) && cred matches Some(c) && used_at(*c, now, u)
            })
        }),
{
    let key = challenge_key(req.agent_id.as_str(), req.credential_id.as_str());
    let entry = store.remove(key.as_str());
    let entry = match entry {
        None => {
            return VerifyOutcome {
                result: Err(AppError::Unauthorized(String::from_str("no pending challenge"))),
                event: None,
                assess_risk: false,
                credential_update: None,
            };
        },
        Some(e) => e,
    };
    proof {
        reveal_strlit("auth_failed");
        reveal_strlit("token_issued");
        reveal_strlit("nonce mismatch");
        reveal_strlit("nonce expired");
        reveal_strlit("credential not active");
        reveal_strlit("invalid signature");
    }
    let agent_id = req.agent_id.as_str();
    let cred_id = req.credential_id.as_str();
    if !text::text_eq(entry.nonce.as_str(), req.nonce.as_str()) {
        return VerifyOutcome {
            result: Err(AppError::Unauthorized(String::from_str("invalid nonce"))),
            event: Some(
                record_auth_event(agent_id, Some(cred_id), "auth_failed", false, Some("nonce mismatch"), now),
            ),
            assess_risk: true,
            credential_update: None,
        };
    }
    if now > entry.expires_at {
        return VerifyOutcome {
            result: Err(AppError::Unauthorized(String::from_str("challenge expired"))),
            event: Some(
                record_auth_event(agent_id, Some(cred_id), "auth_failed", false, Some("nonce expired"), now),
            ),
            assess_risk: true,
            credential_update: None,
        };
    }
    let c = match cred {
        None => {
            return VerifyOutcome {
                result: Err(AppError::Unauthorized(String::from_str("credential not found"))),
                event: None,
                assess_risk: false,
                credential_update: None,
            };
        },
        Some(c) => c,
    };
    if c.status != agent_credential::CredentialStatus::Active {
        return VerifyOutcome {
            result: Err(AppError::Unauthorized(String::from_str("credential not active"))),
            event: Some(
                record_auth_event(
                    agent_id,
                    Some(cred_id),
                    "auth_failed",
                    false,
                    Some("credential not active"),
                    now,
                ),
            ),
            assess_risk: false,
            credential_update: None,
        };
    }
    if !text::text_eq(c.agent_id.as_str(), agent_id) {
        return refusal(AppError::Unauthorized(String::from_str("credential does not belong to agent")));
    }
    let pk = match token::base64_decode(c.public_key.as_str()) {
        None => {
            return refusal(AppError::Internal(String::from_str("stored public key is invalid base64")));
        },
        Some(pk) => pk,
    };
    if pk.len() != 32 {
        return refusal(AppError::Internal(String::from_str("stored public key is invalid")));
    }
    if !ed25519_key_ok(pk.as_slice()) {
        return refusal(AppError::Internal(String::from_str("stored public key is invalid Ed25519")));
    }
    let sig = match token::base64_decode(req.signature.as_str()) {
        None => {
            return refusal(AppError::Unauthorized(String::from_str("invalid base64 signature")));
        },
        Some(sig) => sig,
    };
    if sig.len() != 64 {
        return refusal(AppError::Unauthorized(String::from_str("signature must be 64 bytes")));
    }
    if !ed25519_verify(pk.as_slice(), req.nonce.as_str().as_bytes(), sig.as_slice()) {
        return VerifyOutcome {
            result: Err(AppError::Unauthorized(String::from_str("invalid signature"))),
            event: Some(
                record_auth_event(agent_id, Some(cred_id), "auth_failed", false, Some("invalid signature"), now),
            ),
            assess_risk: true,
            credential_update: None,
        };
    }
    let secs = clock::seconds(now);
    let access_token = match token::create_jwt_at(agent_id, cred_id, secret, secs) {
        Ok(t) => t,
        Err(e) => {
            return refusal(AppError::Internal(e));
        },
    };
    let token_expires_at = later(now, consts::ACCESS_TOKEN_TTL_SECS);
    let mut updated = c.duplicate();
    updated.last_used_at = Some(now);
    VerifyOutcome {
        result: Ok(
            VerifyResponse { access_token, expires_at: clock::rfc3339(token_expires_at) },
        ),
        event: Some(record_auth_event(agent_id, Some(cred_id), "token_issued", true, None, now)),
        assess_risk: false,
        credential_update: Some(updated),
    }
}

/// A challenge answers one verification only: once a verification has taken
/// the pending challenge of a credential out of the store, a second
/// verification for the same agent and credential is refused as having no
/// pending challenge, and records nothing.
pub proof fn challenge_answers_once(
    before: Map<Seq<char>, (Seq<char>, i64)>,
    after: Map<Seq<char>, (Seq<char>, i64)>,
    agent_id: Seq<char>,
    credential_id: Seq<char>,
    req: VerifyRequest,
    cred: Option<agent_credential::Model>,
    now: i64,
)
    requires
        after == before.remove(key_of(agent_id, credential_id)),
        req.agent_id@ == agent_id,
        req.credential_id@ == credential_id,
    ensures
        verify_verdict(after.get(key_of(agent_id, credential_id)), req, cred, now)
            is NoPendingChallenge,
{
}


// ── Claim codes ──

/// An active credential of the agent.
pub open spec fn active_credential_of(c: agent_credential::Model, agent_id: Seq<char>) -> bool {
    c.agent_id@ == agent_id && c.status == agent_credential::CredentialStatus::Active
}

/// An active claim code of the agent.
pub open spec fn active_claim_of(c: claim_token::Model, agent_id: Seq<char>) -> bool {
    c.agent_id@ == agent_id && c.status == claim_token::ClaimStatus::Active
}

/// Whether some credential of the agent is active.
pub open spec fn has_active_credential(creds: Seq<agent_credential::Model>, agent_id: Seq<char>) -> bool {
    exists|i: int| 0 <= i < creds.len() && active_credential_of(#[trigger] creds[i], agent_id)
}

/// Whether some credential of the agent is active.
fn any_active_credential(creds: &Vec<agent_credential::Model>, agent_id: &str) -> (r: bool)
    ensures
        r == has_active_credential(creds@, agent_id@),
{
    let mut i: usize = 0;
    while i < creds.len()
        invariant
            i <= creds.len(),
            forall|j: int| 0 <= j < i ==> !active_credential_of(#[trigger] creds@[j], agent_id@),
        decreases creds.len() - i,
    {
        if creds[i].status == agent_credential::CredentialStatus::Active && text::text_eq(
            creds[i].agent_id.as_str(),
            agent_id,
        ) {
            assert(active_credential_of(creds@[i as int], agent_id@));
            return true;
        }
        i = i + 1;
    }
    false
}

/// The active claim codes of the agent, in their order.
pub open spec fn active_claims_of(claims: Seq<claim_token::Model>, agent_id: Seq<char>) -> Seq<
    claim_token::Model,
> {
    claims.filter(active_claim_test(agent_id))
}

/// The test that a claim code row is an active code of the agent.
pub open spec fn active_claim_test(agent_id: Seq<char>) -> spec_fn(claim_token::Model) -> bool {
    |c: claim_token::Model| active_claim_of(c, agent_id)
}

/// The claim `c` revoked: only the status changes.
pub open spec fn revoked_claim(c: claim_token::Model) -> claim_token::Model {
    claim_token::Model { status: claim_token::ClaimStatus::Revoked, ..c }
}

/// A claim code issued: the active codes it revokes, the new row, and the answer.
pub struct ClaimIssue {
    pub revoked: Vec<claim_token::Model>,
    pub claim: claim_token::Model,
    pub response: ClaimCodeResponse,
}

/// The new claim row: a fresh id, for the agent and owner, the hash of the
/// code, active, created at `now` and expiring `CLAIM_CODE_TTL_SECS` later.
pub open spec fn new_claim_row(
    c: claim_token::Model,
    agent_id: Seq<char>,
    user_id: Seq<char>,
    code: Seq<char>,
    purpose: claim_token::ClaimPurpose,
    now: i64,
) -> bool {
    &&& c.id@.len() == 36
    &&& c.agent_id@ == agent_id
    &&& c.user_id@ == user_id
    &&& c.code_hash@ == token::claim_code_hash(vstd::utf8::encode_utf8(code))
    &&& c.purpose == purpose
    &&& c.status == claim_token::ClaimStatus::Active
    &&& c.created_at == now
    &&& c.expires_at == clock::plus_secs(now, consts::CLAIM_CODE_TTL_SECS)
    &&& c.used_at is None
    &&& c.created_from_ip is None
}

/// The owner generates a one-time claim code for an agent. `creds` and
/// `claims` are the stored credentials and claim codes. The code is for
/// enrolment when the agent has no active credential, for recovery otherwise;
/// every active claim code of the agent is revoked.
pub fn generate_claim(
    found: Option<agent::Model>,
    agent_id: &str,
    user_id: &str,
    creds: &Vec<agent_credential::Model>,
    claims: &Vec<claim_token::Model>,
    now: i64,
) -> (r: Result<ClaimIssue, AppError>)
    requires
        room_after(now, consts::CLAIM_CODE_TTL_SECS),
    ensures
        r is Ok <==> (found matches Some(a) && a.user_id@ == user_id@),
        found is None ==> fails_not_found(r, agent_not_found_text(agent_id@)),
        (found matches Some(a) && a.user_id@ != user_id@) ==> fails_forbidden(r, "not your agent"@),
        r matches Ok(i) ==> found matches Some(a) && {
            &&& token::is_claim_code(i.response.claim_code@)
            &&& new_claim_row(
                i.claim,
                a.id@,
                user_id@,
                i.response.claim_code@,
                if has_active_credential(creds@, a.id@) {
                    claim_token::ClaimPurpose::Recover
                } else {
                    claim_token::ClaimPurpose::Enroll
                },
                now,
            )
            &&& i.response.expires_at@ == clock::spec_rfc3339(i.claim.expires_at)
            &&& i.revoked@ == active_claims_of(claims@, a.id@).map_values(
                |c: claim_token::Model| revoked_claim(c),
            )
        },
{
    broadcast use vstd::seq_lib::group_filter_ensures;
    let agent = find_owned_agent(found, agent_id, user_id)?;
    let purpose = if any_active_credential(creds, agent.id.as_str()) {
        claim_token::ClaimPurpose::Recover
    } else {
        claim_token::ClaimPurpose::Enroll
    };
    let ghost pred = active_claim_test(agent.id@);
    let mut revoked: Vec<claim_token::Model> = Vec::new();
    let mut i: usize = 0;
    while i < claims.len()
        invariant
            i <= claims.len(),
            pred == active_claim_test(agent.id@),
            revoked@ == claims@.take(i as int).filter(pred).map_values(
                |c: claim_token::Model| revoked_claim(c),
            ),
        decreases claims.len() - i,
    {
        proof {
            assert(claims@.take(i + 1) =~= claims@.take(i as int).push(claims@[i as int]));
            claims@.take(i as int).lemma_filter_push(claims@[i as int], pred);
        }
        let c = &claims[i];
        if c.status == claim_token::ClaimStatus::Active && text::text_eq(
            c.agent_id.as_str(),
            agent.id.as_str(),
        ) {
            let mut r = c.duplicate();
            r.status = claim_token::ClaimStatus::Revoked;
            let ghost before = revoked@;
            revoked.push(r);
            proof {
                assert(claims@.take(i as int).filter(pred).push(claims@[i as int]).map_values(
                    |c: claim_token::Model| revoked_claim(c),
                ) =~= before.push(revoked_claim(claims@[i as int])));
            }
        }
        i = i + 1;
    }
    proof {
        assert(claims@.take(claims.len() as int) =~= claims@);
    }
    let raw_code = token::generate_claim_code();
    let code_hash = token::hash_claim_code(raw_code.as_str());
    let expires_at = later(now, consts::CLAIM_CODE_TTL_SECS);
    let claim = claim_token::Model {
        id: new_id(),
        agent_id: agent.id,
        user_id: String::from_str(user_id),
        code_hash,
        purpose,
        status: claim_token::ClaimStatus::Active,
        created_at: now,
        expires_at,
        used_at: None,
        created_from_ip: None,
    };
    let response = ClaimCodeResponse { claim_code: raw_code, expires_at: clock::rfc3339(expires_at) };
    Ok(ClaimIssue { revoked, claim, response })
}


// ── Activation ──

/// A claim code row that an activation with code hash `hash` accepts for the agent.
pub open spec fn claim_accepts(c: claim_token::Model, agent_id: Seq<char>, hash: Seq<char>) -> bool {
    active_claim_of(c, agent_id) && c.code_hash@ == hash
}

/// The claims that accept the hash for the agent, in their order.
pub open spec fn accepting_claims(
    claims: Seq<claim_token::Model>,
    agent_id: Seq<char>,
    hash: Seq<char>,
) -> Seq<claim_token::Model> {
    claims.filter(accepts_test(agent_id, hash))
}

/// The test that a claim code row accepts the hash for the agent.
pub open spec fn accepts_test(agent_id: Seq<char>, hash: Seq<char>) -> spec_fn(claim_token::Model) -> bool {
    |c: claim_token::Model| claim_accepts(c, agent_id, hash)
}

/// The claim an activation goes by: the first one that accepts the code.
pub open spec fn matching_claim(
    claims: Seq<claim_token::Model>,
    agent_id: Seq<char>,
    hash: Seq<char>,
) -> Option<claim_token::Model> {
    let m = accepting_claims(claims, agent_id, hash);
    if m.len() > 0 {
        Some(m[0])
    } else {
        None
    }
}

/// Find the first claim of the agent that is active and has the hash.
fn find_claim(claims: &Vec<claim_token::Model>, agent_id: &str, hash: &str) -> (r: Option<
    claim_token::Model,
>)
    ensures
        r == matching_claim(claims@, agent_id@, hash@),
{
    broadcast use vstd::seq_lib::group_filter_ensures;
    let ghost pred = accepts_test(agent_id@, hash@);
    let mut i: usize = 0;
    while i < claims.len()
        invariant
            i <= claims.len(),
            pred == accepts_test(agent_id@, hash@),
            claims@.take(i as int).filter(pred).len() == 0,
        decreases claims.len() - i,
    {
        proof {
            assert(claims@.take(i + 1) =~= claims@.take(i as int).push(claims@[i as int]));
            claims@.take(i as int).lemma_filter_push(claims@[i as int], pred);
        }
        let c = &claims[i];
        if c.status == claim_token::ClaimStatus::Active && text::text_eq(c.agent_id.as_str(), agent_id)
            && text::text_eq(c.code_hash.as_str(), hash) {
            proof {
                let rest = claims@.subrange(i + 1, claims@.len() as int);
                assert(claims@ =~= claims@.take(i + 1) + rest);
                Seq::filter_distributes_over_add(claims@.take(i + 1), rest, pred);
                assert(claims@.take(i + 1).filter(pred) =~= seq![claims@[i as int]]);
            }
            return Some(c.duplicate());
        }
        i = i + 1;
    }
    proof {
        assert(claims@.take(claims.len() as int) =~= claims@);
    }
    None
}

/// What an activation writes: the credentials it replaces, the new
/// credential, the claim it uses up, the agent it clears for use, and the answer.
pub struct Activation {
    pub replaced: Vec<agent_credential::Model>,
    pub credential: agent_credential::Model,
    pub claim: claim_token::Model,
    pub agent: agent::Model,
    pub response: ActivateCredentialResponse,
}

/// What an activation gives: the answer, and a claim found expired, to save as such.
pub struct ActivationOutcome {
    pub result: Result<Activation, AppError>,
    pub expired_claim: Option<claim_token::Model>,
}

/// The active credentials of the agent, in their order.
pub open spec fn active_credentials_of(
    creds: Seq<agent_credential::Model>,
    agent_id: Seq<char>,
) -> Seq<agent_credential::Model> {
    creds.filter(|c: agent_credential::Model| active_credential_of(c, agent_id))
}

/// The credential `c` after it is replaced by credential `new_id` at `now`.
pub open spec fn replaced_by(c: agent_credential::Model, new_id: Seq<char>, now: i64) -> bool {
    &&& c.status == agent_credential::CredentialStatus::Replaced
    &&& opt_text(c.revoke_reason) == Some("replaced"@)
    &&& c.revoked_at == Some(now)
    &&& opt_text(c.replaced_by_id) == Some(new_id)
}

/// `new` is `old` replaced by credential `new_id` at `now`; the rest stays.
pub open spec fn replacement_of(
    old: agent_credential::Model,
    new: agent_credential::Model,
    new_id: Seq<char>,
    now: i64,
) -> bool {
    &&& replaced_by(new, new_id, now)
    &&& new.id == old.id
    &&& new.agent_id == old.agent_id
    &&& new.public_key == old.public_key
    &&& new.public_key_fp == old.public_key_fp
    &&& new.instance_label == old.instance_label
    &&& new.issued_at == old.issued_at
    &&& new.last_used_at == old.last_used_at
}

/// The verdict on an activation, in the order the checks are made.
pub enum ActivationVerdict {
    AgentMissing,
    ClaimMissing,
    ClaimExpired,
    KeyNotBase64,
    KeyBadLength,
    KeyInvalid,
    Accepted,
}

/// The verdict on an activation for the agent stored under the id, if any.
pub open spec fn activation_verdict(
    found: Option<agent::Model>,
    req: ActivateCredentialRequest,
    claims: Seq<claim_token::Model>,
    now: i64,
) -> ActivationVerdict {
    match found {
        None => ActivationVerdict::AgentMissing,
        Some(a) => match matching_claim(
            claims,
            a.id@,
            token::claim_code_hash(vstd::utf8::encode_utf8(req.claim_code@)),
        ) {
            None => ActivationVerdict::ClaimMissing,
            Some(c) => if now > c.expires_at {
                ActivationVerdict::ClaimExpired
            } else {
                match token::spec_base64_decode(req.public_key@) {
                    None => ActivationVerdict::KeyNotBase64,
                    Some(pk) => if pk.len() != 32 {
                        ActivationVerdict::KeyBadLength
                    } else if !spec_ed25519_key_ok(pk) {
                        ActivationVerdict::KeyInvalid
                    } else {
                        ActivationVerdict::Accepted
                    },
                }
            },
        },
    }
}

/// Activate a credential: an agent presents a claim code and an Ed25519 public
/// key. `found` is the agent stored under `agent_id`, if any; `claims` and
/// `creds` are the stored claim codes and credentials. On success every
/// active credential of the agent is replaced by the new one, the claim code
/// is used up, and the agent no longer needs to re-authenticate.
pub fn activate_credential(
    found: Option<agent::Model>,
    agent_id: &str,
    req: ActivateCredentialRequest,
    claims: &Vec<claim_token::Model>,
    creds: &Vec<agent_credential::Model>,
    now: i64,
) -> (r: ActivationOutcome)
    requires
        valid_time(now),
    ensures
        ({
            let v = activation_verdict(found, req, claims@, now);
            let hash = token::claim_code_hash(vstd::utf8::encode_utf8(req.claim_code@));
            &&& (v is AgentMissing ==> fails_not_found(r.result, agent_not_found_text(agent_id@)))
            &&& (v is ClaimMissing ==> fails_unauthorized(r.result, "invalid or expired claim code"@))
            &&& (v is ClaimExpired ==> fails_unauthorized(r.result, "claim code expired"@))
            &&& (v is KeyNotBase64 ==> fails_validation(r.result, "invalid base64 public key"@))
            &&& (v is KeyBadLength ==> fails_validation(
                r.result,
                "public key must be 32 bytes (Ed25519)"@,
            ))
            &&& (v is KeyInvalid ==> fails_validation(r.result, "invalid Ed25519 public key"@))
            &&& (r.result is Ok <==> v is Accepted)
            &&& (v is ClaimExpired <==> r.expired_claim is Some)
            &&& (r.expired_claim matches Some(e) ==> found matches Some(a) && matching_claim(
                claims@,
                a.id@,
                hash,
            ) matches Some(m) && e == (claim_token::Model {
                status: claim_token::ClaimStatus::Expired,
                ..m
            }))
            &&& (r.result matches Ok(act) ==> found matches Some(a) && matching_claim(
                claims@,
                a.id@,
                hash,
            ) matches Some(m) && token::spec_base64_decode(req.public_key@) matches Some(pk) && {
                &&& act.credential.id@.len() == 36
                &&& act.credential.agent_id@ == a.id@
                &&& act.credential.public_key@ == req.public_key@
                &&& act.credential.public_key_fp@ == token::fingerprint_of(pk)
                &&& act.credential.status == agent_credential::CredentialStatus::Active
                &&& act.credential.revoke_reason is None
                &&& act.credential.instance_label == req.instance_label
                &&& act.credential.issued_at == now
                &&& act.credential.last_used_at is None
                &&& act.credential.revoked_at is None
                &&& act.credential.replaced_by_id is None
                &&& act.replaced@.len() == active_credentials_of(creds@, a.id@).len()
                &&& (forall|k: int|
                    0 <= k < act.replaced@.len() ==> replacement_of(
                        active_credentials_of(creds@, a.id@)[k],
                        #[trigger] act.replaced@[k],
                        act.credential.id@,
                        now,
                    ))
                &&& act.claim == (claim_token::Model {
                    status: claim_token::ClaimStatus::Used,
                    used_at: Some(now),
                    ..m
                })
                &&& act.agent == (agent::Model { reauth_required: false, updated_at: now, ..a })
                &&& act.response.credential_id@ == act.credential.id@
                &&& act.response.public_key_fingerprint@ == act.credential.public_key_fp@
            })
        }),
{
    broadcast use vstd::seq_lib::group_filter_ensures;
    let agent = match found {
        None => {
            return ActivationOutcome { result: Err(agent_not_found(agent_id)), expired_claim: None };
        },
        Some(a) => a,
    };
    let code_hash = token::hash_claim_code(req.claim_code.as_str());
    let claim = match find_claim(claims, agent.id.as_str(), code_hash.as_str()) {
        None => {
            return ActivationOutcome {
                result: Err(AppError::Unauthorized(String::from_str("invalid or expired claim code"))),
                expired_claim: None,
            };
        },
        Some(c) => c,
    };
    if now > claim.expires_at {
        let mut expired = claim;
        expired.status = claim_token::ClaimStatus::Expired;
        return ActivationOutcome {
            result: Err(AppError::Unauthorized(String::from_str("claim code expired"))),
            expired_claim: Some(expired),
        };
    }
    let fail = |m: &str| -> (o: ActivationOutcome)
        ensures
            fails_validation(o.result, m@),
            o.expired_claim is None,
        { ActivationOutcome { result: Err(AppError::Validation(String::from_str(m))), expired_claim: None } };
    let pk = match token::base64_decode(req.public_key.as_str()) {
        None => {
            return fail("invalid base64 public key");
        },
        Some(pk) => pk,
    };
    if pk.len() != 32 {
        return fail("public key must be 32 bytes (Ed25519)");
    }
    if !ed25519_key_ok(pk.as_slice()) {
        return fail("invalid Ed25519 public key");
    }
    let fingerprint = token::public_key_fingerprint(pk.as_slice());
    let new_cred_id = new_id();
    let ghost pred = |c: agent_credential::Model| active_credential_of(c, agent.id@);
    let mut replaced: Vec<agent_credential::Model> = Vec::new();
    let mut i: usize = 0;
    while i < creds.len()
        invariant
            i <= creds.len(),
            pred == (|c: agent_credential::Model| active_credential_of(c, agent.id@)),
            replaced@.len() == creds@.take(i as int).filter(pred).len(),
            forall|k: int|
                0 <= k < replaced@.len() ==> replacement_of(
                    creds@.take(i as int).filter(pred)[k],
                    #[trigger] replaced@[k],
                    new_cred_id@,
                    now,
                ),
        decreases creds.len() - i,
    {
        proof {
            assert(creds@.take(i + 1) =~= creds@.take(i as int).push(creds@[i as int]));
            creds@.take(i as int).lemma_filter_push(creds@[i as int], pred);
            reveal_strlit("replaced");
        }
        let c = &creds[i];
        if c.status == agent_credential::CredentialStatus::Active && text::text_eq(
            c.agent_id.as_str(),
            agent.id.as_str(),
        ) {
            let mut r = c.duplicate();
            r.status = agent_credential::CredentialStatus::Replaced;
            r.revoke_reason = Some(String::from_str("replaced"));
            r.revoked_at = Some(now);
            r.replaced_by_id = Some(new_cred_id.clone());
            replaced.push(r);
        }
        i = i + 1;
    }
    proof {
        assert(creds@.take(creds.len() as int) =~= creds@);
    }
    let credential = agent_credential::Model {
        id: new_cred_id,
        agent_id: agent.id.clone(),
        public_key: req.public_key,
        public_key_fp: fingerprint,
        status: agent_credential::CredentialStatus::Active,
        revoke_reason: None,
        instance_label: req.instance_label,
        issued_at: now,
        last_used_at: None,
        revoked_at: None,
        replaced_by_id: None,
    };
    let mut used = claim;
    used.status = claim_token::ClaimStatus::Used;
    used.used_at = Some(now);
    let mut cleared = agent;
    cleared.reauth_required = false;
    cleared.updated_at = now;
    let response = ActivateCredentialResponse {
        credential_id: credential.id.clone(),
        public_key_fingerprint: credential.public_key_fp.clone(),
    };
    ActivationOutcome {
        result: Ok(Activation { replaced, credential, claim: used, agent: cleared, response }),
        expired_claim: None,
    }
}


// ── Laws ──

/// The credentials once an activation for the agent is saved: the rows that
/// were not active credentials of the agent, the replaced rows, and the new one.
pub open spec fn credentials_after_activation(
    creds: Seq<agent_credential::Model>,
    agent_id: Seq<char>,
    act: Activation,
) -> Seq<agent_credential::Model> {
    creds.filter(|c: agent_credential::Model| !active_credential_of(c, agent_id)) + act.replaced@
        + seq![act.credential]
}

/// After an activation the agent has exactly one active credential: the new one.
pub proof fn activation_leaves_one_active_credential(
    creds: Seq<agent_credential::Model>,
    agent_id: Seq<char>,
    act: Activation,
)
    requires
        act.credential.agent_id@ == agent_id,
        act.credential.status == agent_credential::CredentialStatus::Active,
        forall|k: int|
            0 <= k < act.replaced@.len() ==> (#[trigger] act.replaced@[k]).status
                == agent_credential::CredentialStatus::Replaced,
    ensures
        active_credentials_of(credentials_after_activation(creds, agent_id, act), agent_id)
            == seq![act.credential],
{
    broadcast use vstd::seq_lib::group_filter_ensures;
    let act_p = |c: agent_credential::Model| active_credential_of(c, agent_id);
    let kept = creds.filter(|c: agent_credential::Model| !active_credential_of(c, agent_id));
    Seq::filter_distributes_over_add(kept + act.replaced@, seq![act.credential], act_p);
    Seq::filter_distributes_over_add(kept, act.replaced@, act_p);
    assert(kept.filter(act_p) =~= Seq::<agent_credential::Model>::empty()) by {
        if kept.filter(act_p).len() > 0 {
            let c = kept.filter(act_p)[0];
            assert(kept.filter(act_p).contains(c));
            kept.lemma_filter_contains_rev(act_p, c);
            assert(kept.contains(c));
        }
    }
    assert(act.replaced@.filter(act_p) =~= Seq::<agent_credential::Model>::empty()) by {
        if act.replaced@.filter(act_p).len() > 0 {
            let c = act.replaced@.filter(act_p)[0];
            assert(act.replaced@.filter(act_p).contains(c));
            act.replaced@.lemma_filter_contains_rev(act_p, c);
        }
    }
    reveal_with_fuel(Seq::filter, 2);
    assert(seq![act.credential].filter(act_p) =~= seq![act.credential]) by {
        assert(seq![act.credential].drop_last() =~= Seq::<agent_credential::Model>::empty());
    }
}

/// The claim codes once a new code for the agent is saved: the rows that were
/// not active codes of the agent, the revoked rows, and the new one.
pub open spec fn claims_after_issue(
    claims: Seq<claim_token::Model>,
    agent_id: Seq<char>,
    issue: ClaimIssue,
) -> Seq<claim_token::Model> {
    claims.filter(not_active_claim_of(agent_id)) + issue.revoked@ + seq![issue.claim]
}

/// The test that a claim code row is not an active code of the agent.
pub open spec fn not_active_claim_of(agent_id: Seq<char>) -> spec_fn(claim_token::Model) -> bool {
    |c: claim_token::Model| !active_claim_of(c, agent_id)
}

/// The test that a claim code row is another row than `m`.
pub open spec fn other_than(m: claim_token::Model) -> spec_fn(claim_token::Model) -> bool {
    |c: claim_token::Model| c != m
}

/// After a claim code is issued the agent has exactly one active claim code,
/// the new one, and an activation with the hash of the issued code finds it.
#[verifier::spinoff_prover]
pub proof fn issued_claim_is_the_only_active_one(
    claims: Seq<claim_token::Model>,
    agent_id: Seq<char>,
    hash: Seq<char>,
    issue: ClaimIssue,
)
    requires
        issue.claim.agent_id@ == agent_id,
        issue.claim.status == claim_token::ClaimStatus::Active,
        issue.claim.code_hash@ == hash,
        forall|k: int|
            0 <= k < issue.revoked@.len() ==> (#[trigger] issue.revoked@[k]).status
                == claim_token::ClaimStatus::Revoked,
    ensures
        active_claims_of(claims_after_issue(claims, agent_id, issue), agent_id) == seq![issue.claim],
        matching_claim(claims_after_issue(claims, agent_id, issue), agent_id, hash) == Some(
            issue.claim,
        ),
{
    let front = claims.filter(not_active_claim_of(agent_id)) + issue.revoked@;
    no_active_before_issue(claims, agent_id, issue.revoked@);
    assert(claims_after_issue(claims, agent_id, issue) == front.push(issue.claim)) by {
        assert(claims_after_issue(claims, agent_id, issue) =~= front.push(issue.claim));
    }
    only_new_claim_active(front, issue.claim, agent_id, hash);
}

/// Of rows none of which is an active code of the agent, followed by an
/// active code of the agent with the hash, only that one is active and
/// accepts the hash.
#[verifier::spinoff_prover]
proof fn only_new_claim_active(
    front: Seq<claim_token::Model>,
    c: claim_token::Model,
    agent_id: Seq<char>,
    hash: Seq<char>,
)
    requires
        forall|k: int| 0 <= k < front.len() ==> !active_claim_of(#[trigger] front[k], agent_id),
        active_claim_of(c, agent_id),
        c.code_hash@ == hash,
    ensures
        active_claims_of(front.push(c), agent_id) == seq![c],
        matching_claim(front.push(c), agent_id, hash) == Some(c),
{
    only_last_passes(front, c, active_claim_test(agent_id));
    assert forall|k: int| 0 <= k < front.len() implies !accepts_test(agent_id, hash)(
        #[trigger] front[k],
    ) by {
        assert(!active_claim_of(front[k], agent_id));
    }
    only_last_passes(front, c, accepts_test(agent_id, hash));
    assert(seq![c][0] == c);
}

/// Neither the rows that are not active codes of the agent nor the revoked
/// rows are active codes of the agent.
proof fn no_active_before_issue(
    claims: Seq<claim_token::Model>,
    agent_id: Seq<char>,
    revoked: Seq<claim_token::Model>,
)
    requires
        forall|k: int|
            0 <= k < revoked.len() ==> (#[trigger] revoked[k]).status == claim_token::ClaimStatus::Revoked,
    ensures
        forall|k: int|
            0 <= k < (claims.filter(not_active_claim_of(agent_id)) + revoked).len() ==> !active_claim_of(
                #[trigger] (claims.filter(not_active_claim_of(agent_id)) + revoked)[k],
                agent_id,
            ),
{
    broadcast use vstd::seq_lib::group_filter_ensures;
    let kept = claims.filter(not_active_claim_of(agent_id));
    let front = kept + revoked;
    assert forall|k: int| 0 <= k < front.len() implies !active_claim_of(#[trigger] front[k], agent_id) by {
        if k < kept.len() {
            assert(front[k] == kept[k]);
            assert(not_active_claim_of(agent_id)(kept[k]));
        } else {
            assert(front[k] == revoked[k - kept.len()]);
        }
    }
}

/// When, of a sequence ending with `x`, only `x` passes a test, the filter keeps `x` alone.
proof fn only_last_passes<A>(s: Seq<A>, x: A, p: spec_fn(A) -> bool)
    requires
        p(x),
        forall|k: int| 0 <= k < s.len() ==> !p(#[trigger] s[k]),
    ensures
        s.push(x).filter(p) == seq![x],
{
    broadcast use vstd::seq_lib::group_filter_ensures;
    s.lemma_filter_push(x, p);
    s.lemma_all_neg_filter_empty(p);
    assert(s.filter(p) =~= Seq::<A>::empty());
    assert(s.filter(p).push(x) =~= seq![x]);
}

/// The claim codes once an activation is saved: the used claim in place of the
/// row it was matched from.
pub open spec fn claims_after_activation(
    claims: Seq<claim_token::Model>,
    matched: claim_token::Model,
    act: Activation,
) -> Seq<claim_token::Model> {
    claims.filter(other_than(matched)) + seq![act.claim]
}

/// A claim code is used once: when the claim an activation went by was the
/// only one that accepted the code, the same code is refused afterwards.
pub proof fn used_claim_code_is_refused(
    claims: Seq<claim_token::Model>,
    agent_id: Seq<char>,
    hash: Seq<char>,
    matched: claim_token::Model,
    act: Activation,
)
    requires
        forall|c: claim_token::Model| claims.contains(c) && claim_accepts(c, agent_id, hash) ==> c == matched,
        act.claim.status == claim_token::ClaimStatus::Used,
    ensures
        matching_claim(claims_after_activation(claims, matched, act), agent_id, hash) is None,
{
    broadcast use vstd::seq_lib::group_filter_ensures;
    let after = claims_after_activation(claims, matched, act);
    let acc_p = accepts_test(agent_id, hash);
    let other_p = other_than(matched);
    let others = claims.filter(other_p);
    assert forall|k: int| 0 <= k < after.len() implies !acc_p(#[trigger] after[k]) by {
        if k < others.len() {
            assert(after[k] == others[k]);
            assert(other_p(others[k]));
            assert(others.contains(others[k]));
            claims.lemma_filter_contains_rev(other_p, others[k]);
        } else {
            assert(after[k] == act.claim);
        }
    }
    after.lemma_all_neg_filter_empty(acc_p);
}

/// A claim code is used once: once a code is issued for an agent and an
/// activation goes by it (leaving it used), the same code is refused.
#[verifier::spinoff_prover]
pub proof fn issued_code_is_used_once(
    claims: Seq<claim_token::Model>,
    agent_id: Seq<char>,
    hash: Seq<char>,
    issue: ClaimIssue,
    act: Activation,
)
    requires
        issue.claim.agent_id@ == agent_id,
        issue.claim.status == claim_token::ClaimStatus::Active,
        issue.claim.code_hash@ == hash,
        forall|k: int|
            0 <= k < issue.revoked@.len() ==> (#[trigger] issue.revoked@[k]).status
                == claim_token::ClaimStatus::Revoked,
        act.claim.status == claim_token::ClaimStatus::Used,
    ensures
        matching_claim(claims_after_issue(claims, agent_id, issue), agent_id, hash) == Some(issue.claim),
        matching_claim(
            claims_after_activation(claims_after_issue(claims, agent_id, issue), issue.claim, act),
            agent_id,
            hash,
        ) is None,
{
    broadcast use vstd::seq_lib::group_filter_ensures;
    let after = claims_after_issue(claims, agent_id, issue);
    issued_claim_is_the_only_active_one(claims, agent_id, hash, issue);
    assert forall|c: claim_token::Model| after.contains(c) && claim_accepts(c, agent_id, hash) implies c
        == issue.claim by {
        let act_p = active_claim_test(agent_id);
        assert(act_p(c));
        assert(after.filter(act_p).contains(c));
        assert(active_claims_of(after, agent_id) == seq![issue.claim]);
        assert(after.filter(act_p)[0] == issue.claim);
    }
    used_claim_code_is_refused(after, agent_id, hash, issue.claim, act);
}


// ── Authentication events ──

/// `r` shows the authentication event `e` to the agent's owner.
pub open spec fn shows_event(e: auth_event::Model, r: AuthEventResponse) -> bool {
    &&& r.id@ == e.id@
    &&& r.credential_id == e.credential_id
    &&& r.event_type@ == e.event_type@
    &&& r.success == e.success
    &&& r.reason == e.reason
    &&& r.created_at@ == clock::spec_rfc3339(e.created_at)
}

/// The test that an event is about the agent.
pub open spec fn event_of(agent_id: Seq<char>) -> spec_fn(auth_event::Model) -> bool {
    |e: auth_event::Model| e.agent_id@ == agent_id
}

/// The owner views the authentication events of an agent: those of `events`
/// that are about the agent, in the order given (newest first, as stored).
pub fn list_auth_events(
    found: Option<agent::Model>,
    agent_id: &str,
    user_id: &str,
    events: &Vec<auth_event::Model>,
) -> (r: Result<Vec<AuthEventResponse>, AppError>)
    requires
        forall|i: int| 0 <= i < events.len() ==> valid_time(#[trigger] events@[i].created_at),
    ensures
        r is Ok <==> (found matches Some(a) && a.user_id@ == user_id@),
        found is None ==> fails_not_found(r, agent_not_found_text(agent_id@)),
        (found matches Some(a) && a.user_id@ != user_id@) ==> fails_forbidden(r, "not your agent"@),
        r matches Ok(v) ==> found matches Some(a) && v@.len() == events@.filter(event_of(a.id@)).len()
            && forall|k: int|
            0 <= k < v@.len() ==> shows_event(events@.filter(event_of(a.id@))[k], #[trigger] v@[k]),
{
    broadcast use vstd::seq_lib::group_filter_ensures;
    let agent = find_owned_agent(found, agent_id, user_id)?;
    let ghost pred = event_of(agent.id@);
    let mut out: Vec<AuthEventResponse> = Vec::new();
    let mut i: usize = 0;
    while i < events.len()
        invariant
            i <= events.len(),
            pred == event_of(agent.id@),
            forall|j: int| 0 <= j < events.len() ==> valid_time(#[trigger] events@[j].created_at),
            out@.len() == events@.take(i as int).filter(pred).len(),
            forall|k: int|
                0 <= k < out@.len() ==> shows_event(
                    events@.take(i as int).filter(pred)[k],
                    #[trigger] out@[k],
                ),
        decreases events.len() - i,
    {
        proof {
            assert(events@.take(i + 1) =~= events@.take(i as int).push(events@[i as int]));
            events@.take(i as int).lemma_filter_push(events@[i as int], pred);
        }
        let e = &events[i];
        if text::text_eq(e.agent_id.as_str(), agent.id.as_str()) {
            out.push(
                AuthEventResponse {
                    id: e.id.clone(),
                    credential_id: e.credential_id.clone(),
                    event_type: e.event_type.clone(),
                    success: e.success,
                    reason: e.reason.clone(),
                    created_at: clock::rfc3339(e.created_at),
                },
            );
        }
        i = i + 1;
    }
    proof {
        assert(events@.take(events.len() as int) =~= events@);
    }
    Ok(out)
}


/// The handshake works: an agent whose active credential holds the public
/// key of its secret key, and that answers its pending, unexpired challenge
/// with the nonce signed by that secret key, is accepted and given a token.
pub proof fn signed_challenge_is_accepted(
    secret: Seq<u8>,
    pending: (Seq<char>, i64),
    req: VerifyRequest,
    cred: agent_credential::Model,
    now: i64,
)
    requires
        pending.0 == req.nonce@,
        now <= pending.1,
        cred.status == agent_credential::CredentialStatus::Active,
        cred.agent_id@ == req.agent_id@,
        token::spec_base64_decode(cred.public_key@) == Some(spec_ed25519_public(secret)),
        spec_ed25519_public(secret).len() == 32,
        spec_ed25519_key_ok(spec_ed25519_public(secret)),
        token::spec_base64_decode(req.signature@) == Some(
            spec_ed25519_sign(secret, vstd::utf8::encode_utf8(req.nonce@)),
        ),
        spec_ed25519_sign(secret, vstd::utf8::encode_utf8(req.nonce@)).len() == 64,
        spec_ed25519_verify(
            spec_ed25519_public(secret),
            vstd::utf8::encode_utf8(req.nonce@),
            spec_ed25519_sign(secret, vstd::utf8::encode_utf8(req.nonce@)),
        ),
    ensures
        verify_verdict(Some(pending), req, Some(cred), now) is Accepted,
{
}

} // verus!
