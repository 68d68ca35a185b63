use agentim::entity::agent::AgentStatus;
use agentim::entity::agent_credential::CredentialStatus;
use agentim::entity::channel_member::MemberRole;
use agentim::entity::claim_token::ClaimStatus;
use agentim::entity::message::MsgType;

#[test]
fn active_can_transition_to_suspended() {
    assert!(AgentStatus::Active.can_transition_to(&AgentStatus::Suspended));
}

#[test]
fn suspended_can_transition_to_active() {
    assert!(AgentStatus::Suspended.can_transition_to(&AgentStatus::Active));
}

#[test]
fn cannot_transition_to_same_status() {
    assert!(!AgentStatus::Active.can_transition_to(&AgentStatus::Active));
    assert!(!AgentStatus::Suspended.can_transition_to(&AgentStatus::Suspended));
}

#[test]
fn active_can_transition_to_replaced() {
    assert!(CredentialStatus::Active.can_transition_to(&CredentialStatus::Replaced));
}

#[test]
fn agent_credential_active_can_transition_to_revoked() {
    assert!(CredentialStatus::Active.can_transition_to(&CredentialStatus::Revoked));
}

#[test]
fn active_can_transition_to_risk_revoked() {
    assert!(CredentialStatus::Active.can_transition_to(&CredentialStatus::RiskRevoked));
}

#[test]
fn agent_credential_terminal_states_cannot_transition() {
    let terminals = [CredentialStatus::Revoked, CredentialStatus::RiskRevoked, CredentialStatus::Replaced];
    let all = [
        CredentialStatus::Active,
        CredentialStatus::Revoked,
        CredentialStatus::RiskRevoked,
        CredentialStatus::Replaced,
    ];
    for from in &terminals {
        for to in &all {
            assert!(!from.can_transition_to(to), "{:?} should not transition to {:?}", from, to);
        }
    }
}

#[test]
fn active_cannot_transition_to_active() {
    assert!(!CredentialStatus::Active.can_transition_to(&CredentialStatus::Active));
}

#[test]
fn active_can_transition_to_used() {
    assert!(ClaimStatus::Active.can_transition_to(&ClaimStatus::Used));
}

#[test]
fn claim_token_active_can_transition_to_revoked() {
    assert!(ClaimStatus::Active.can_transition_to(&ClaimStatus::Revoked));
}

#[test]
fn active_can_transition_to_expired() {
    assert!(ClaimStatus::Active.can_transition_to(&ClaimStatus::Expired));
}

#[test]
fn claim_token_terminal_states_cannot_transition() {
    let terminals = [ClaimStatus::Used, ClaimStatus::Revoked, ClaimStatus::Expired];
    let all = [ClaimStatus::Active, ClaimStatus::Used, ClaimStatus::Revoked, ClaimStatus::Expired];
    for from in &terminals {
        for to in &all {
            assert!(!from.can_transition_to(to), "{:?} should not transition to {:?}", from, to);
        }
    }
}

#[test]
fn stored_forms_of_statuses() {
    assert_eq!(AgentStatus::Suspended.as_string(), "suspended");
    assert_eq!(CredentialStatus::RiskRevoked.as_string(), "risk_revoked");
    assert_eq!(MemberRole::Admin.as_string(), "admin");
    assert_eq!(MemberRole::Member.as_string(), "member");
    assert_eq!(MsgType::Text.as_string(), "text");
}
