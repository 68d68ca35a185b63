use agentim::auth::extractor::{access_route, bearer_claims, bearer_token, AccessRoute, AgentAccess, AgentAuth, SessionState, UserSession};
use agentim::auth::token::{create_jwt, verify_jwt};
use agentim::entity::{agent, agent_credential, user};

const TEST_JWT_SECRET: &str = "test-jwt-secret-for-unit-tests";

fn test_agent(id: &str, user_id: &str, status: agent::AgentStatus) -> agent::Model {
    agent::Model {
        id: id.into(),
        user_id: user_id.into(),
        name: "Test Agent".into(),
        reauth_required: false,
        avatar_url: None,
        bio: None,
        status,
        created_at: 0,
        updated_at: 0,
    }
}

fn cred(status: agent_credential::CredentialStatus) -> agent_credential::Model {
    agent_credential::Model {
        id: "cred-1".into(),
        agent_id: "test-agent".into(),
        public_key: "base64key".into(),
        public_key_fp: "fp1234567890abcd".into(),
        status,
        revoke_reason: None,
        instance_label: None,
        issued_at: 0,
        last_used_at: None,
        revoked_at: None,
        replaced_by_id: None,
    }
}

#[test]
fn jwt_finds_agent_and_credential() {
    let jwt = create_jwt("test-agent", "cred-1", TEST_JWT_SECRET).unwrap();
    let claims = verify_jwt(&jwt, TEST_JWT_SECRET).unwrap();
    assert_eq!(claims.sub, "test-agent");
    assert_eq!(claims.cid, "cred-1");
    let auth = AgentAuth::authorize(
        claims,
        Some(test_agent("test-agent", "u1", agent::AgentStatus::Active)),
        Some(cred(agent_credential::CredentialStatus::Active)),
    )
    .unwrap();
    assert_eq!(auth.agent.id, "test-agent");
    assert_eq!(auth.credential_id, "cred-1");
}

#[test]
fn wrong_jwt_secret_fails() {
    let jwt = create_jwt("test-agent", "cred-1", TEST_JWT_SECRET).unwrap();
    let header = format!("Bearer {}", jwt);
    let e = bearer_claims(Some(&header), "wrong-secret").err().unwrap();
    assert_eq!(e.status_code(), 401);
}

#[test]
fn revoked_credential_rejected() {
    let jwt = create_jwt("test-agent", "cred-1", TEST_JWT_SECRET).unwrap();
    let claims = verify_jwt(&jwt, TEST_JWT_SECRET).unwrap();
    let e = AgentAuth::authorize(
        claims,
        Some(test_agent("test-agent", "u1", agent::AgentStatus::Active)),
        Some(cred(agent_credential::CredentialStatus::Revoked)),
    )
    .err()
    .unwrap();
    assert_eq!(e.message(), "unauthorized: credential revoked");
}

#[test]
fn agent_access_via_jwt() {
    let jwt = create_jwt("test-agent", "cred-1", TEST_JWT_SECRET).unwrap();
    let header = format!("Bearer {}", jwt);
    let claims = bearer_claims(Some(&header), TEST_JWT_SECRET).unwrap();
    let access = AgentAccess::by_token(
        claims,
        Some(test_agent("test-agent", "u1", agent::AgentStatus::Active)),
        Some(cred(agent_credential::CredentialStatus::Active)),
    )
    .unwrap();
    assert_eq!(access.agent.id, "test-agent");
    assert!(access.credential_id.is_some());
}

#[test]
fn agent_access_via_session_proxy() {
    let session = SessionState::LoggedIn("u1".into());
    let access = AgentAccess::by_session(
        Some("web-agent"),
        &session,
        Some(test_agent("web-agent", "u1", agent::AgentStatus::Active)),
    )
    .unwrap();
    assert_eq!(access.agent.id, "web-agent");
    assert!(access.credential_id.is_none());
}

#[test]
fn agent_access_wrong_owner_rejected() {
    let session = SessionState::LoggedIn("u1".into());
    let e = AgentAccess::by_session(
        Some("other-agent"),
        &session,
        Some(test_agent("other-agent", "u2", agent::AgentStatus::Active)),
    )
    .err()
    .unwrap();
    assert_eq!(e.status_code(), 403);
}

#[test]
fn agent_access_no_auth_rejected() {
    let e = AgentAccess::by_session(None, &SessionState::Missing, None).err().unwrap();
    assert_eq!(e.status_code(), 401);
}

#[test]
fn agent_access_suspended_rejected() {
    let session = SessionState::LoggedIn("u1".into());
    let e = AgentAccess::by_session(
        Some("sus-agent"),
        &session,
        Some(test_agent("sus-agent", "u1", agent::AgentStatus::Suspended)),
    )
    .err()
    .unwrap();
    assert_eq!(e.status_code(), 403);
    assert_eq!(e.message(), "forbidden: agent is suspended");
}

#[test]
fn bearer_header_forms() {
    assert_eq!(bearer_token(Some("Bearer abc")).unwrap(), "abc");
    assert_eq!(bearer_token(None).err().unwrap().message(), "unauthorized: missing Authorization header");
    assert_eq!(bearer_token(Some("Basic abc")).err().unwrap().message(), "unauthorized: invalid Authorization format");
}

#[test]
fn token_agent_checks_in_order() {
    let jwt = create_jwt("test-agent", "cred-1", TEST_JWT_SECRET).unwrap();
    let claims = || verify_jwt(&jwt, TEST_JWT_SECRET).unwrap();
    let e = AgentAuth::authorize(claims(), None, None).err().unwrap();
    assert_eq!(e.message(), "unauthorized: agent not found");
    let mut flagged = test_agent("test-agent", "u1", agent::AgentStatus::Active);
    flagged.reauth_required = true;
    let e = AgentAuth::authorize(claims(), Some(flagged), None).err().unwrap();
    assert_eq!(e.message(), "forbidden: re-authentication required");
    let e = AgentAuth::authorize(claims(), Some(test_agent("test-agent", "u1", agent::AgentStatus::Active)), None)
        .err()
        .unwrap();
    assert_eq!(e.message(), "unauthorized: credential not found");
}

#[test]
fn user_session_states() {
    let u = user::Model {
        id: "u1".into(),
        github_id: 1,
        github_name: "testuser".into(),
        avatar_url: None,
        created_at: 0,
        updated_at: 0,
    };
    assert_eq!(UserSession::from_session(&SessionState::Missing, None).err().unwrap().message(), "unauthorized: no session");
    assert_eq!(UserSession::from_session(&SessionState::Unreadable, None).err().unwrap().status_code(), 500);
    assert_eq!(UserSession::from_session(&SessionState::Anonymous, None).err().unwrap().message(), "unauthorized: not logged in");
    let s = SessionState::LoggedIn("u1".into());
    assert_eq!(UserSession::from_session(&s, None).err().unwrap().message(), "unauthorized: user not found");
    assert_eq!(UserSession::from_session(&s, Some(u)).unwrap().user.github_name, "testuser");
}

#[test]
fn authorization_header_decides_the_route() {
    assert!(matches!(access_route(Some("Bearer x")), AccessRoute::Token));
    assert!(matches!(access_route(Some("Basic x")), AccessRoute::Token));
    assert!(matches!(access_route(None), AccessRoute::Session));
}
