use agentim::api::channels::{
    close_channel, create_channel, get_channel, invite_member, list_channel_messages, list_channels,
    remove_member, send_channel_message,
};
use agentim::api::dto::{ChatHistoryParams, CreateChannelRequest, InviteMemberRequest, SendChannelMessageRequest};
use agentim::entity::channel_member::MemberRole;
use agentim::entity::{agent, channel, channel_member, message};

const T0: i64 = 1_700_000_000_000_000;

fn ch(id: &str, name: &str, creator: &str) -> channel::Model {
    channel::Model {
        id: id.into(),
        name: name.into(),
        created_by: creator.into(),
        is_closed: false,
        created_at: T0,
        updated_at: T0,
    }
}

fn member(ch: &str, agent: &str, role: MemberRole) -> channel_member::Model {
    channel_member::Model { channel_id: ch.into(), agent_id: agent.into(), role, joined_at: T0 }
}

fn agent_row(id: &str) -> agent::Model {
    agent::Model {
        id: id.into(),
        user_id: "u".into(),
        name: id.into(),
        reauth_required: false,
        avatar_url: None,
        bio: None,
        status: agent::AgentStatus::Active,
        created_at: T0,
        updated_at: T0,
    }
}

#[test]
fn create_channel_adds_creator_as_admin() {
    let c = create_channel("alice", CreateChannelRequest { name: "test-channel".into() }, T0);
    assert_eq!(c.channel.name, "test-channel");
    assert_eq!(c.channel.created_by, "alice");
    assert!(!c.channel.is_closed);
    assert_eq!(c.admin.channel_id, c.channel.id);
    assert_eq!(c.admin.agent_id, "alice");
    assert_eq!(c.admin.role, MemberRole::Admin);
    assert_eq!(c.response.id, c.channel.id);
}

#[test]
fn list_channels_only_mine() {
    let channels = vec![ch("ch-a", "Alice's Channel", "alice"), ch("ch-b", "Bob's Channel", "bob")];
    let members = vec![member("ch-a", "alice", MemberRole::Admin), member("ch-b", "bob", MemberRole::Admin)];
    let mine = list_channels("alice", &members, &channels);
    assert_eq!(mine.len(), 1);
    assert_eq!(mine[0].id, "ch-a");
}

#[test]
fn invite_member_works() {
    let c = ch("ch-1", "Test Channel", "alice");
    let members = vec![member("ch-1", "alice", MemberRole::Admin)];
    let bob = agent_row("bob");
    let req = InviteMemberRequest { agent_id: "bob".into() };
    let m = invite_member("alice", "ch-1", Some(&c), &members, &req, Some(&bob), T0).unwrap();
    assert_eq!(m.role, MemberRole::Member);
    assert_eq!(m.agent_id, "bob");
    let mut after = members.clone_rows();
    after.push(m);
    let e = invite_member("alice", "ch-1", Some(&c), &after, &req, Some(&bob), T0).err().unwrap();
    assert_eq!(e.status_code(), 409);
    assert_eq!(e.message(), "conflict: agent is already a member");
    let detail = get_channel("alice", "ch-1", Some(&c), &after).unwrap();
    assert_eq!(detail.members.len(), 2);
}

trait CloneRows {
    fn clone_rows(&self) -> Vec<channel_member::Model>;
}

impl CloneRows for Vec<channel_member::Model> {
    fn clone_rows(&self) -> Vec<channel_member::Model> {
        self.iter().map(|m| m.duplicate()).collect()
    }
}

#[test]
fn non_admin_cannot_invite() {
    let c = ch("ch-1", "Test Channel", "alice");
    let members = vec![member("ch-1", "alice", MemberRole::Admin), member("ch-1", "bob", MemberRole::Member)];
    let carol = agent_row("carol");
    let req = InviteMemberRequest { agent_id: "carol".into() };
    let e = invite_member("bob", "ch-1", Some(&c), &members, &req, Some(&carol), T0).err().unwrap();
    assert_eq!(e.status_code(), 403);
    assert_eq!(e.message(), "forbidden: only admins can invite members");
}

#[test]
fn closed_channel_rejects_message() {
    let mut c = ch("ch-1", "Test Channel", "alice");
    let members = vec![member("ch-1", "alice", MemberRole::Admin)];
    let closed = close_channel("alice", "ch-1", Some(&c), &members, T0 + 1).unwrap();
    assert!(closed.is_closed);
    assert_eq!(closed.updated_at, T0 + 1);
    c.is_closed = true;
    let req = SendChannelMessageRequest { content: "hi".into(), msg_type: None };
    let e = send_channel_message("alice", "ch-1", Some(&c), &members, req, T0).err().unwrap();
    assert_eq!(e.status_code(), 422);
    assert_eq!(e.message(), "validation: channel is closed");
}

#[test]
fn channel_messages_only_for_members() {
    let c = ch("ch-1", "Test Channel", "alice");
    let members = vec![member("ch-1", "alice", MemberRole::Admin)];
    let msgs = vec![message::Model {
        id: "m1".into(),
        from_agent: "alice".into(),
        to_agent: None,
        channel_id: Some("ch-1".into()),
        content: "hello group".into(),
        msg_type: message::MsgType::Text,
        created_at: T0,
    }];
    let params = ChatHistoryParams { before: None, limit: None };
    let e = list_channel_messages("bob", "ch-1", Some(&c), &members, &params, &msgs).err().unwrap();
    assert_eq!(e.status_code(), 403);
    let got = list_channel_messages("alice", "ch-1", Some(&c), &members, &params, &msgs).unwrap();
    assert_eq!(got.len(), 1);
    assert_eq!(got[0].content, "hello group");
    let bad = ChatHistoryParams { before: Some("yesterday".into()), limit: None };
    let e = list_channel_messages("alice", "ch-1", Some(&c), &members, &bad, &msgs).err().unwrap();
    assert_eq!(e.message(), "validation: invalid 'before' timestamp");
    let early = ChatHistoryParams { before: Some("2000-01-01T00:00:00Z".into()), limit: None };
    assert!(list_channel_messages("alice", "ch-1", Some(&c), &members, &early, &msgs).unwrap().is_empty());
}

#[test]
fn remove_member_works() {
    let c = ch("ch-1", "Test Channel", "alice");
    let members = vec![member("ch-1", "alice", MemberRole::Admin), member("ch-1", "bob", MemberRole::Member)];
    let key = remove_member("alice", "ch-1", "bob", Some(&c), &members).unwrap();
    assert_eq!(key, ("ch-1".to_string(), "bob".to_string()));
    let e = remove_member("alice", "ch-1", "alice", Some(&c), &members).err().unwrap();
    assert_eq!(e.message(), "validation: admin cannot remove self");
    let e = remove_member("alice", "ch-1", "carol", Some(&c), &members).err().unwrap();
    assert_eq!(e.message(), "not found: member not found");
}

#[test]
fn send_channel_message_names_members() {
    let c = ch("ch-1", "Test Channel", "alice");
    let members = vec![
        member("ch-1", "alice", MemberRole::Admin),
        member("ch-2", "zed", MemberRole::Admin),
        member("ch-1", "bob", MemberRole::Member),
    ];
    let req = SendChannelMessageRequest { content: "hi all".into(), msg_type: Some("markdown".into()) };
    let post = send_channel_message("alice", "ch-1", Some(&c), &members, req, T0).unwrap();
    assert_eq!(post.member_ids, vec!["alice".to_string(), "bob".to_string()]);
    assert_eq!(post.message.channel_id, Some("ch-1".into()));
    assert_eq!(post.message.msg_type, message::MsgType::Text);
    assert_eq!(post.response.msg_type, "markdown");
}

#[test]
fn missing_channel_is_not_found() {
    let e = get_channel("alice", "nope", None, &vec![]).err().unwrap();
    assert_eq!(e.message(), "not found: channel not found");
}
