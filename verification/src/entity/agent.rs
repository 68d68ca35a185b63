//! Agents: the messaging identities that users create and own.
//!
//! - `id` is a readable slug chosen by the owner and is globally unique.
//! - A user owns at most `MAX_AGENTS_PER_USER` agents.
//! - Status flows Active <-> Suspended.
//! - All timestamps are UTC microseconds since the Unix epoch.

use vstd::prelude::*;

verus! {

/// A row of the agents table.
pub struct Model {
    pub id: String,
    pub user_id: String,
    pub name: String,
    /// Set when the agent must enroll a new credential before using the API.
    pub reauth_required: bool,
    pub avatar_url: Option<String>,
    pub bio: Option<String>,
    pub status: AgentStatus,
    pub created_at: i64,
    pub updated_at: i64,
}

impl Model {
    /// A field-by-field copy.
    pub fn duplicate(&self) -> (r: Self)
        ensures
            r == *self,
    {
        Model {
            id: self.id.clone(),
            user_id: self.user_id.clone(),
            name: self.name.clone(),
            reauth_required: self.reauth_required,
            avatar_url: self.avatar_url.clone(),
            bio: self.bio.clone(),
            status: self.status,
            created_at: self.created_at,
            updated_at: self.updated_at,
        }
    }
}

/// Agent status: Active <-> Suspended.
#[derive(Clone, Copy, Debug, PartialEq, Eq, Structural)]
pub enum AgentStatus {
    Active,
    Suspended,
}

impl AgentStatus {
    /// The transitions the status machine allows: to the other state only.
    pub open spec fn allows(self, next: AgentStatus) -> bool {
        self != next
    }

    /// Check whether transitioning from this status to `next` is allowed.
    pub fn can_transition_to(&self, next: &AgentStatus) -> (r: bool)
        ensures
            r == self.allows(*next),
    {
        match (self, next) {
            (AgentStatus::Active, AgentStatus::Active) => false,
            (AgentStatus::Suspended, AgentStatus::Suspended) => false,
            _ => true,
        }
    }

    /// The text under which the status is stored and shown.
    pub open spec fn text(self) -> Seq<char> {
        match self {
            AgentStatus::Active => "active"@,
            AgentStatus::Suspended => "suspended"@,
        }
    }

    /// The stored form of the status.
    pub fn as_string(&self) -> (r: String)
        ensures
            r@ == self.text(),
    {
        match self {
            AgentStatus::Active => String::from_str("active"),
            AgentStatus::Suspended => String::from_str("suspended"),
        }
    }
}

/// Every state can reach every other state, and none can stay where it is.
pub proof fn agent_status_transitions_are_bidirectional(a: AgentStatus, b: AgentStatus)
    ensures
        a.allows(b) == b.allows(a),
        !a.allows(a),
{
}

} // verus!
