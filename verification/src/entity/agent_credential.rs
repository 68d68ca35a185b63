//! Agent credentials: Ed25519 public keys with which agents authenticate.
//!
//! - An agent has at most one Active credential at a time.
//! - A new activation turns the old Active credential into Replaced.
//! - Risk monitoring turns a credential into RiskRevoked; an owner turns it into Revoked.
//! - `public_key_fp` is the first 16 hex characters of the SHA-256 of the key.

use vstd::prelude::*;

verus! {

/// A row of the agent_credentials table.
pub struct Model {
    pub id: String,
    pub agent_id: String,
    /// Ed25519 public key, base64 encoded.
    pub public_key: String,
    pub public_key_fp: String,
    pub status: CredentialStatus,
    pub revoke_reason: Option<String>,
    pub instance_label: Option<String>,
    pub issued_at: i64,
    pub last_used_at: Option<i64>,
    pub revoked_at: Option<i64>,
    pub replaced_by_id: Option<String>,
}

impl Model {
    /// A field-by-field copy.
    pub fn duplicate(&self) -> (r: Self)
        ensures
            r == *self,
    {
        Model {
            id: self.id.clone(),
            agent_id: self.agent_id.clone(),
            public_key: self.public_key.clone(),
            public_key_fp: self.public_key_fp.clone(),
            status: self.status,
            revoke_reason: self.revoke_reason.clone(),
            instance_label: self.instance_label.clone(),
            issued_at: self.issued_at,
            last_used_at: self.last_used_at,
            revoked_at: self.revoked_at,
            replaced_by_id: self.replaced_by_id.clone(),
        }
    }
}

/// Credential status. Active may become Replaced, Revoked or RiskRevoked;
/// the other three states are terminal.
#[derive(Clone, Copy, Debug, PartialEq, Eq, Structural)]
pub enum CredentialStatus {
    Active,
    Revoked,
    RiskRevoked,
    Replaced,
}

impl CredentialStatus {
    /// The transitions the status machine allows.
    pub open spec fn allows(self, next: CredentialStatus) -> bool {
        self == CredentialStatus::Active && next != CredentialStatus::Active
    }

    /// Check whether transitioning from this status to `next` is allowed.
    pub fn can_transition_to(&self, next: &CredentialStatus) -> (r: bool)
        ensures
            r == self.allows(*next),
    {
        match (self, next) {
            (CredentialStatus::Active, CredentialStatus::Replaced) => true,
            (CredentialStatus::Active, CredentialStatus::Revoked) => true,
            (CredentialStatus::Active, CredentialStatus::RiskRevoked) => true,
            _ => false,
        }
    }

    /// The text under which the status is stored.
    pub open spec fn text(self) -> Seq<char> {
        match self {
            CredentialStatus::Active => "active"@,
            CredentialStatus::Revoked => "revoked"@,
            CredentialStatus::RiskRevoked => "risk_revoked"@,
            CredentialStatus::Replaced => "replaced"@,
        }
    }

    /// The stored form of the status.
    pub fn as_string(&self) -> (r: String)
        ensures
            r@ == self.text(),
    {
        match self {
            CredentialStatus::Active => String::from_str("active"),
            CredentialStatus::Revoked => String::from_str("revoked"),
            CredentialStatus::RiskRevoked => String::from_str("risk_revoked"),
            CredentialStatus::Replaced => String::from_str("replaced"),
        }
    }
}

/// Replaced, Revoked and RiskRevoked are terminal: nothing leaves them, and
/// nothing enters Active.
pub proof fn credential_terminal_states_are_final(s: CredentialStatus, t: CredentialStatus)
    ensures
        s != CredentialStatus::Active ==> !s.allows(t),
        !s.allows(CredentialStatus::Active),
        s == CredentialStatus::Active ==> (s.allows(t) <==> t != CredentialStatus::Active),
{
}

} // verus!
