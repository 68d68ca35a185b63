//! Request and response bodies of the HTTP API.

use vstd::prelude::*;

verus! {

// ── Requests ──

/// Body of a request to create an agent.
pub struct CreateAgentRequest {
    pub id: String,
    pub name: String,
    pub bio: Option<String>,
    pub avatar_url: Option<String>,
}

/// Body of a request to update an agent; absent fields stay as they are.
pub struct UpdateAgentRequest {
    pub name: Option<String>,
    pub bio: Option<String>,
    pub avatar_url: Option<String>,
}

// ── Responses ──

/// Answer to a created agent.
pub struct CreateAgentResponse {
    pub id: String,
    pub name: String,
    pub created_at: String,
}

/// An agent as shown to its owner.
pub struct AgentResponse {
    pub id: String,
    pub name: String,
    pub avatar_url: Option<String>,
    pub bio: Option<String>,
    pub status: String,
    pub created_at: String,
    pub updated_at: String,
}

// ── Contacts ──

/// Body of a request to add a contact.
pub struct AddContactRequest {
    pub contact_id: String,
    pub alias: Option<String>,
}

/// A contact as shown to its owner.
pub struct ContactResponse {
    pub contact_id: String,
    pub alias: Option<String>,
    pub agent_name: String,
    pub is_blocked: bool,
    pub created_at: String,
}

/// Unread direct messages from one sender.
pub struct InboxSummaryEntry {
    pub from_agent: String,
    pub agent_name: String,
    pub unread_count: u32,
}

// ── Messages ──

/// Body of a direct message.
pub struct SendMessageRequest {
    pub to_agent: String,
    pub content: String,
    pub msg_type: Option<String>,
}

/// A message as shown to an agent.
pub struct MessageResponse {
    pub id: String,
    pub from_agent: String,
    pub to_agent: Option<String>,
    pub channel_id: Option<String>,
    pub content: String,
    pub msg_type: String,
    pub created_at: String,
}

/// Paging of a history: a cursor and a page size.
pub struct ChatHistoryParams {
    pub before: Option<String>,
    pub limit: Option<u32>,
}

/// A full-text search query.
pub struct SearchParams {
    pub q: String,
}

// ── Auth ──

/// The logged-in user.
pub struct MeResponse {
    pub id: String,
    pub github_name: String,
    pub avatar_url: Option<String>,
    pub created_at: String,
}

// ── Channels ──

/// Body of a request to create a channel.
pub struct CreateChannelRequest {
    pub name: String,
}

/// A channel as listed.
pub struct ChannelResponse {
    pub id: String,
    pub name: String,
    pub created_by: String,
    pub is_closed: bool,
    pub created_at: String,
}

/// A channel with its members.
pub struct ChannelDetailResponse {
    pub id: String,
    pub name: String,
    pub created_by: String,
    pub is_closed: bool,
    pub created_at: String,
    pub members: Vec<ChannelMemberResponse>,
}

/// A member of a channel.
pub struct ChannelMemberResponse {
    pub agent_id: String,
    pub role: String,
    pub joined_at: String,
}

/// Body of a request to invite an agent into a channel.
pub struct InviteMemberRequest {
    pub agent_id: String,
}

/// Body of a channel message.
pub struct SendChannelMessageRequest {
    pub content: String,
    pub msg_type: Option<String>,
}

// ── Credentials ──

/// A new claim code, shown once.
pub struct ClaimCodeResponse {
    pub claim_code: String,
    pub expires_at: String,
}

/// Body of a credential activation.
pub struct ActivateCredentialRequest {
    pub claim_code: String,
    pub public_key: String,
    pub instance_label: Option<String>,
}

/// Answer to an activated credential.
pub struct ActivateCredentialResponse {
    pub credential_id: String,
    pub public_key_fingerprint: String,
}

/// Request for an authentication challenge.
pub struct ChallengeRequest {
    pub agent_id: String,
    pub credential_id: String,
}

/// A challenge nonce and when it expires.
pub struct ChallengeResponse {
    pub nonce: String,
    pub expires_at: String,
}

/// A signed challenge.
pub struct VerifyRequest {
    pub agent_id: String,
    pub credential_id: String,
    pub nonce: String,
    pub signature: String,
}

/// An access token and when it expires.
pub struct VerifyResponse {
    pub access_token: String,
    pub expires_at: String,
}

/// An authentication event as shown to the owner.
pub struct AuthEventResponse {
    pub id: String,
    pub credential_id: Option<String>,
    pub event_type: String,
    pub success: bool,
    pub reason: Option<String>,
    pub created_at: String,
}

} // verus!
