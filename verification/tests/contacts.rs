use agentim::api::contacts::{add_contact, block_contact, list_contacts, remove_contact, unblock_contact};
use agentim::api::dto::AddContactRequest;
use agentim::api::messages::check_blocked;
use agentim::entity::{agent, contact};

const T0: i64 = 1_700_000_000_000_000;

fn agent_row(id: &str) -> agent::Model {
    agent::Model {
        id: id.into(),
        user_id: "u".into(),
        name: format!("Agent {}", id),
        reauth_required: false,
        avatar_url: None,
        bio: None,
        status: agent::AgentStatus::Active,
        created_at: T0,
        updated_at: T0,
    }
}

fn row(a: &str, c: &str, blocked: bool) -> contact::Model {
    contact::Model { agent_id: a.into(), contact_id: c.into(), alias: None, is_blocked: blocked, created_at: T0 }
}

#[test]
fn add_contact_appears_in_list() {
    let bob = agent_row("bob");
    let req = AddContactRequest { contact_id: "bob".into(), alias: Some("Bobby".into()) };
    let (c, resp) = add_contact("alice", req, Some(&bob), &vec![], T0).unwrap();
    assert_eq!(resp.agent_name, "Agent bob");
    let listed = list_contacts("alice", &vec![c], &vec![bob]);
    assert_eq!(listed.len(), 1);
    assert_eq!(listed[0].contact_id, "bob");
    assert_eq!(listed[0].alias, Some("Bobby".into()));
}

#[test]
fn add_nonexistent_agent_fails() {
    let req = AddContactRequest { contact_id: "no-such-agent".into(), alias: None };
    let e = add_contact("alice", req, None, &vec![], T0).err().unwrap();
    assert_eq!(e.status_code(), 404);
}

#[test]
fn add_self_rejected() {
    let me = agent_row("alice");
    let req = AddContactRequest { contact_id: "alice".into(), alias: None };
    let e = add_contact("alice", req, Some(&me), &vec![], T0).err().unwrap();
    assert_eq!(e.message(), "validation: cannot add self as contact");
}

#[test]
fn add_duplicate_detected() {
    let bob = agent_row("bob");
    let req = AddContactRequest { contact_id: "bob".into(), alias: None };
    let e = add_contact("alice", req, Some(&bob), &vec![row("alice", "bob", false)], T0).err().unwrap();
    assert_eq!(e.status_code(), 409);
    assert_eq!(e.message(), "conflict: contact already exists");
}

#[test]
fn block_contact_sets_flag() {
    let contacts = vec![row("alice", "bob", false)];
    let updated = block_contact("alice", "bob", &contacts).unwrap().unwrap();
    assert!(updated.is_blocked);
    assert!(check_blocked(&vec![updated.duplicate()], "bob", "alice"));
    assert!(block_contact("alice", "bob", &vec![updated]).unwrap().is_none());
}

#[test]
fn unblock_contact_clears_flag() {
    let contacts = vec![row("alice", "bob", true)];
    let updated = unblock_contact("alice", "bob", &contacts).unwrap().unwrap();
    assert!(!updated.is_blocked);
    assert!(unblock_contact("alice", "bob", &vec![updated]).unwrap().is_none());
    let e = unblock_contact("alice", "carol", &contacts).err().unwrap();
    assert_eq!(e.message(), "not found: contact not found");
}

#[test]
fn list_only_own_contacts() {
    let contacts = vec![row("alice", "bob", false), row("bob", "carol", false), row("alice", "carol", false)];
    let agents = vec![agent_row("bob"), agent_row("carol")];
    let listed = list_contacts("alice", &contacts, &agents);
    assert_eq!(listed.len(), 2);
    assert_eq!(listed[0].contact_id, "bob");
    assert_eq!(listed[1].contact_id, "carol");
    assert_eq!(listed[1].agent_name, "Agent carol");
    let listed = list_contacts("bob", &contacts, &vec![]);
    assert_eq!(listed.len(), 1);
    assert_eq!(listed[0].agent_name, "");
}

#[test]
fn remove_contact_gives_its_key() {
    let contacts = vec![row("alice", "bob", false), row("carol", "dave", false)];
    let (a, c) = remove_contact("alice", "bob", &contacts).unwrap();
    assert_eq!((a.as_str(), c.as_str()), ("alice", "bob"));
    let err = remove_contact("alice", "dave", &contacts).err().unwrap();
    assert_eq!(err.status_code(), 404);
    assert_eq!(err.message(), "not found: contact not found");
}
