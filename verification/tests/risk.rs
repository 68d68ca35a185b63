use agentim::entity::{agent, agent_credential, auth_event};
use agentim::risk::{assess_risk, RiskLevel};

const NOW: i64 = 1_700_000_000_000_000;

fn event(idx: usize, success: bool, at: i64) -> auth_event::Model {
    auth_event::Model {
        id: format!("evt-{}", idx),
        agent_id: "test-agent".into(),
        credential_id: Some("cred-1".into()),
        event_type: "auth_attempt".into(),
        success,
        reason: None,
        source_ip: None,
        client_name: None,
        client_version: None,
        instance_label: None,
        created_at: at,
    }
}

fn cred() -> agent_credential::Model {
    agent_credential::Model {
        id: "cred-1".into(),
        agent_id: "test-agent".into(),
        public_key: "base64key".into(),
        public_key_fp: "fp1234567890abcd".into(),
        status: agent_credential::CredentialStatus::Active,
        revoke_reason: None,
        instance_label: None,
        issued_at: NOW,
        last_used_at: None,
        revoked_at: None,
        replaced_by_id: None,
    }
}

fn test_agent() -> agent::Model {
    agent::Model {
        id: "test-agent".into(),
        user_id: "u1".into(),
        name: "Test Agent".into(),
        reauth_required: false,
        avatar_url: None,
        bio: None,
        status: agent::AgentStatus::Active,
        created_at: NOW,
        updated_at: NOW,
    }
}

/// Events newest first.
fn newest_first(mut events: Vec<auth_event::Model>) -> Vec<auth_event::Model> {
    events.reverse();
    events
}

#[test]
fn no_events_is_low_risk() {
    let r = assess_risk(&vec![], "test-agent", "cred-1", Some(cred()), Some(test_agent()), NOW);
    assert_eq!(r.level, RiskLevel::Low);
}

#[test]
fn few_failures_is_low_risk() {
    let events = newest_first((0..3).map(|i| event(i, false, NOW - 10)).collect());
    let r = assess_risk(&events, "test-agent", "cred-1", Some(cred()), Some(test_agent()), NOW);
    assert_eq!(r.level, RiskLevel::Low);
    assert!(r.revoked_credential.is_none());
}

#[test]
fn consecutive_failures_triggers_high_risk() {
    let events = newest_first((0..6).map(|i| event(i, false, NOW - 10)).collect());
    let r = assess_risk(&events, "test-agent", "cred-1", Some(cred()), Some(test_agent()), NOW);
    assert_eq!(r.level, RiskLevel::High);
    let c = r.revoked_credential.unwrap();
    assert_eq!(c.status, agent_credential::CredentialStatus::RiskRevoked);
    assert!(c.revoke_reason.clone().unwrap().contains("consecutive"));
    assert_eq!(c.revoke_reason.unwrap(), "auto-revoked: 6 consecutive auth failures");
    assert_eq!(c.revoked_at, Some(NOW));
    assert!(r.flagged_agent.unwrap().reauth_required);
}

#[test]
fn success_breaks_failure_streak() {
    let mut events: Vec<auth_event::Model> = (0..4).map(|i| event(i, false, NOW - 20)).collect();
    events.push(event(100, true, NOW - 15));
    for i in 4..7 {
        events.push(event(i, false, NOW - 10));
    }
    let r = assess_risk(&newest_first(events), "test-agent", "cred-1", Some(cred()), Some(test_agent()), NOW);
    assert_eq!(r.level, RiskLevel::Low);
    assert_eq!(r.consecutive_failures, 3);
}

#[test]
fn five_failures_are_still_tolerated() {
    let events = newest_first((0..5).map(|i| event(i, false, NOW - 10)).collect());
    let r = assess_risk(&events, "test-agent", "cred-1", Some(cred()), Some(test_agent()), NOW);
    assert_eq!(r.level, RiskLevel::Low);
}

#[test]
fn old_and_foreign_events_do_not_count() {
    let mut events: Vec<auth_event::Model> = (0..6).map(|i| event(i, false, NOW - 3_600_000_001)).collect();
    let mut other = event(50, false, NOW - 5);
    other.credential_id = Some("cred-2".into());
    events.push(other);
    let r = assess_risk(&newest_first(events), "test-agent", "cred-1", Some(cred()), Some(test_agent()), NOW);
    assert_eq!(r.level, RiskLevel::Low);
    assert_eq!(r.consecutive_failures, 0);
}

#[test]
fn high_risk_leaves_inactive_credential_alone() {
    let mut c = cred();
    c.status = agent_credential::CredentialStatus::Revoked;
    let events = newest_first((0..7).map(|i| event(i, false, NOW - 10)).collect());
    let r = assess_risk(&events, "test-agent", "cred-1", Some(c), Some(test_agent()), NOW);
    assert_eq!(r.level, RiskLevel::High);
    assert!(r.revoked_credential.is_none());
    assert!(r.flagged_agent.is_none());
}
