//! Authentication events: an append-only log used for risk monitoring and audit.

use vstd::prelude::*;

verus! {

/// A row of the auth_events table.
pub struct Model {
    pub id: String,
    pub agent_id: String,
    pub credential_id: Option<String>,
    /// One of challenge_issued, challenge_verified, token_issued, auth_failed.
    pub event_type: String,
    pub success: bool,
    pub reason: Option<String>,
    pub source_ip: Option<String>,
    pub client_name: Option<String>,
    pub client_version: Option<String>,
    pub instance_label: Option<String>,
    pub created_at: i64,
}

} // verus!
