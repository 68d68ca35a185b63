//! Claim tokens: one-time codes with which an owner lets an agent enroll or
//! recover a credential.
//!
//! - Only the SHA-256 hash of the code is stored.
//! - An agent has at most one Active claim code; a new one revokes the old.
//! - A code lives `CLAIM_CODE_TTL_SECS` and can be used once.

use vstd::prelude::*;

verus! {

/// A row of the claim_tokens table.
pub struct Model {
    pub id: String,
    pub agent_id: String,
    pub user_id: String,
    pub code_hash: String,
    pub purpose: ClaimPurpose,
    pub status: ClaimStatus,
    pub created_at: i64,
    pub expires_at: i64,
    pub used_at: Option<i64>,
    pub created_from_ip: Option<String>,
}

impl Model {
    /// A field-by-field copy.
    pub fn duplicate(&self) -> (r: Self)
        ensures
            r == *self,
    {
        Model {
            id: self.id.clone(),
            agent_id: self.agent_id.clone(),
            user_id: self.user_id.clone(),
            code_hash: self.code_hash.clone(),
            purpose: self.purpose,
            status: self.status,
            created_at: self.created_at,
            expires_at: self.expires_at,
            used_at: self.used_at,
            created_from_ip: self.created_from_ip.clone(),
        }
    }
}

/// What a claim code is for.
#[derive(Clone, Copy, Debug, PartialEq, Eq, Structural)]
pub enum ClaimPurpose {
    /// First credential of an agent.
    Enroll,
    /// Replacement of an existing credential.
    Recover,
}

/// Claim status. Active may become Used, Revoked or Expired; the other three
/// states are terminal.
#[derive(Clone, Copy, Debug, PartialEq, Eq, Structural)]
pub enum ClaimStatus {
    Active,
    Used,
    Revoked,
    Expired,
}

impl ClaimStatus {
    /// The transitions the status machine allows.
    pub open spec fn allows(self, next: ClaimStatus) -> bool {
        self == ClaimStatus::Active && next != ClaimStatus::Active
    }

    /// Check whether transitioning from this status to `next` is allowed.
    pub fn can_transition_to(&self, next: &ClaimStatus) -> (r: bool)
        ensures
            r == self.allows(*next),
    {
        match (self, next) {
            (ClaimStatus::Active, ClaimStatus::Used) => true,
            (ClaimStatus::Active, ClaimStatus::Revoked) => true,
            (ClaimStatus::Active, ClaimStatus::Expired) => true,
            _ => false,
        }
    }
}

/// Used, Revoked and Expired are terminal: nothing leaves them, and nothing
/// enters Active.
pub proof fn claim_terminal_states_are_final(s: ClaimStatus, t: ClaimStatus)
    ensures
        s != ClaimStatus::Active ==> !s.allows(t),
        !s.allows(ClaimStatus::Active),
        s == ClaimStatus::Active ==> (s.allows(t) <==> t != ClaimStatus::Active),
{
}

} // verus!
