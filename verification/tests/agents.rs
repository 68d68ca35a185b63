use agentim::api::agents::{
    create_agent, delete_agent, find_owned_agent, get_agent, get_agent_by_token, list_agents, to_agent_response,
    update_agent, validate_agent_id,
};
use agentim::api::dto::{CreateAgentRequest, UpdateAgentRequest};
use agentim::entity::{agent, contact};
use agentim::error::AppError;

fn agent_row(id: &str, user_id: &str) -> agent::Model {
    agent::Model {
        id: id.to_string(),
        user_id: user_id.to_string(),
        name: format!("Agent {}", id),
        reauth_required: false,
        avatar_url: None,
        bio: None,
        status: agent::AgentStatus::Active,
        created_at: 1_700_000_000_000_000,
        updated_at: 1_700_000_000_000_000,
    }
}

fn contact_row(a: &str, c: &str) -> contact::Model {
    contact::Model {
        agent_id: a.to_string(),
        contact_id: c.to_string(),
        alias: None,
        is_blocked: false,
        created_at: 1_700_000_000_000_000,
    }
}

#[test]
fn valid_ids() {
    assert!(validate_agent_id("abc").is_ok());
    assert!(validate_agent_id("my-bot-123").is_ok());
    assert!(validate_agent_id("a".repeat(50).as_str()).is_ok());
}

#[test]
fn too_short() {
    assert!(validate_agent_id("ab").is_err());
}

#[test]
fn too_long() {
    assert!(validate_agent_id(&"a".repeat(51)).is_err());
}

#[test]
fn uppercase_rejected() {
    assert!(validate_agent_id("MyBot").is_err());
}

#[test]
fn spaces_rejected() {
    assert!(validate_agent_id("my bot").is_err());
}

#[test]
fn underscores_rejected() {
    assert!(validate_agent_id("my_bot").is_err());
}

#[test]
fn agent_id_length_counts_bytes() {
    // 17 two-byte characters: 34 bytes, within the limit, but not allowed characters.
    let e = validate_agent_id(&"é".repeat(17)).err().unwrap();
    assert_eq!(e.message(), "validation: agent id must contain only lowercase letters, digits, and hyphens");
    // 26 two-byte characters: 52 bytes, over the limit.
    let e = validate_agent_id(&"é".repeat(26)).err().unwrap();
    assert_eq!(e.message(), "validation: agent id must be 3-50 characters");
}

#[test]
fn find_owned_agent_checks_owner() {
    let e = find_owned_agent(None, "ghost", "u1").err().unwrap();
    assert_eq!(e.message(), "not found: agent 'ghost' not found");
    let e = find_owned_agent(Some(agent_row("u1-bot", "u1")), "u1-bot", "u2").err().unwrap();
    assert_eq!(e.status_code(), 403);
    assert_eq!(e.message(), "forbidden: not your agent");
    let a = find_owned_agent(Some(agent_row("u1-bot", "u1")), "u1-bot", "u1").unwrap();
    assert_eq!(a.id, "u1-bot");
}

#[test]
fn create_agent_builds_row() {
    let req = CreateAgentRequest {
        id: "test-bot".into(),
        name: "Test Bot".into(),
        bio: Some("hi".into()),
        avatar_url: None,
    };
    let (m, resp) = create_agent("u1", req, &vec![], None, 1_700_000_000_000_000).unwrap();
    assert_eq!(m.id, "test-bot");
    assert_eq!(m.user_id, "u1");
    assert_eq!(m.status, agent::AgentStatus::Active);
    assert!(!m.reauth_required);
    assert_eq!(resp.name, "Test Bot");
    assert_eq!(resp.created_at, "2023-11-14T22:13:20+00:00");
}

#[test]
fn create_agent_duplicate_id_fails() {
    let existing = agent_row("dup-bot", "u1");
    let req = CreateAgentRequest { id: "dup-bot".into(), name: "Dup".into(), bio: None, avatar_url: None };
    let e = create_agent("u1", req, &vec![], Some(&existing), 0).err().unwrap();
    assert_eq!(e.status_code(), 409);
    assert_eq!(e.message(), "conflict: agent id 'dup-bot' already exists");
}

#[test]
fn create_51st_agent_fails_count_check() {
    let owned: Vec<agent::Model> = (0..50).map(|i| agent_row(&format!("bot-{:03}", i), "u1")).collect();
    let req = CreateAgentRequest { id: "bot-050".into(), name: "x".into(), bio: None, avatar_url: None };
    let e = create_agent("u1", req, &owned, None, 0).err().unwrap();
    assert_eq!(e.status_code(), 422);
    assert_eq!(e.message(), "validation: maximum 50 agents per user");
    // Agents of other users do not count.
    let others: Vec<agent::Model> = (0..50).map(|i| agent_row(&format!("bot-{:03}", i), "u2")).collect();
    let req = CreateAgentRequest { id: "bot-050".into(), name: "x".into(), bio: None, avatar_url: None };
    assert!(create_agent("u1", req, &others, None, 0).is_ok());
}

#[test]
fn create_agent_invalid_id_rejected() {
    let req = CreateAgentRequest { id: "My_Bot".into(), name: "x".into(), bio: None, avatar_url: None };
    let e = create_agent("u1", req, &vec![], None, 0).err().unwrap();
    assert_eq!(e.status_code(), 422);
}

#[test]
fn list_agents_only_own() {
    let rows = vec![agent_row("u1-bot-a", "u1"), agent_row("u1-bot-b", "u1"), agent_row("u2-bot-a", "u2")];
    let u1 = list_agents("u1", &rows);
    assert_eq!(u1.len(), 2);
    assert_eq!(u1[0].id, "u1-bot-a");
    assert_eq!(u1[1].id, "u1-bot-b");
    assert_eq!(list_agents("u2", &rows).len(), 1);
}

#[test]
fn get_agent_correct_data() {
    let r = get_agent(Some(agent_row("my-bot", "u1")), "my-bot", "u1").unwrap();
    assert_eq!(r.id, "my-bot");
    assert_eq!(r.name, "Agent my-bot");
    assert_eq!(r.status, "active");
}

#[test]
fn get_agent_wrong_owner_denied() {
    let e = get_agent(Some(agent_row("u1-bot", "u1")), "u1-bot", "u2").err().unwrap();
    assert_eq!(e.status_code(), 403);
}

#[test]
fn update_agent_fields() {
    let req = UpdateAgentRequest { name: Some("New Name".into()), bio: Some("New bio".into()), avatar_url: None };
    let (m, resp) = update_agent(Some(agent_row("my-bot", "u1")), "my-bot", "u1", req, 1_800_000_000_000_000).unwrap();
    assert_eq!(m.name, "New Name");
    assert_eq!(m.bio, Some("New bio".into()));
    assert_eq!(m.avatar_url, None);
    assert_eq!(m.updated_at, 1_800_000_000_000_000);
    assert_eq!(m.created_at, 1_700_000_000_000_000);
    assert_eq!(resp.name, "New Name");
}

#[test]
fn delete_agent_cleans_contacts() {
    let contacts = vec![contact_row("bot-a", "bot-b"), contact_row("bot-b", "bot-c"), contact_row("bot-a", "bot-c")];
    let d = delete_agent(Some(agent_row("bot-b", "u1")), "bot-b", "u1", &contacts).unwrap();
    assert_eq!(d.agent_id, "bot-b");
    assert_eq!(
        d.contacts,
        vec![("bot-a".to_string(), "bot-b".to_string()), ("bot-b".to_string(), "bot-c".to_string())]
    );
}

#[test]
fn to_agent_response_shows_status_and_times() {
    let mut m = agent_row("x-bot", "u1");
    m.status = agent::AgentStatus::Suspended;
    let r = to_agent_response(&m);
    assert_eq!(r.status, "suspended");
    assert_eq!(r.created_at, "2023-11-14T22:13:20+00:00");
}

#[test]
fn agent_not_found_error_kind() {
    let e = get_agent(None, "nope", "u1").err().unwrap();
    assert!(matches!(e, AppError::NotFound(_)));
}


#[test]
fn agent_reads_agent_details_by_token() {
    let a = agent_row("my-agent", "u1");
    let r = get_agent_by_token(Some(a), "my-agent").unwrap();
    assert_eq!(r.id, "my-agent");
    assert_eq!(r.status, "active");
    let e = get_agent_by_token(None, "ghost").err().unwrap();
    assert_eq!(e.status_code(), 404);
    assert_eq!(e.message(), "not found: agent 'ghost' not found");
}
