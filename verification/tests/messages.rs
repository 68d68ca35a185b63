use agentim::api::dto::{ChatHistoryParams, SendMessageRequest};
use agentim::api::messages::{
    build_inbox_summary, chat_history, check_blocked, mark_all_read, mark_read, mark_read_from,
    search, search_terms, send_message, sort_newest_first, to_response,
};
use agentim::entity::{agent, contact, message, message_read};

const T0: i64 = 1_700_000_000_000_000;

fn agent_row(id: &str) -> agent::Model {
    agent::Model {
        id: id.into(),
        user_id: "u1".into(),
        name: format!("Agent {}", id),
        reauth_required: false,
        avatar_url: None,
        bio: None,
        status: agent::AgentStatus::Active,
        created_at: T0,
        updated_at: T0,
    }
}

fn msg(id: &str, from: &str, to: &str, content: &str, at: i64) -> message::Model {
    message::Model {
        id: id.into(),
        from_agent: from.into(),
        to_agent: Some(to.into()),
        channel_id: None,
        content: content.into(),
        msg_type: message::MsgType::Text,
        created_at: at,
    }
}

fn read(agent_id: &str, message_id: &str) -> message_read::Model {
    message_read::Model { agent_id: agent_id.into(), message_id: message_id.into(), read_at: T0 }
}

fn block(a: &str, b: &str) -> contact::Model {
    contact::Model { agent_id: a.into(), contact_id: b.into(), alias: None, is_blocked: true, created_at: T0 }
}

#[test]
fn send_message_creates_record() {
    let req = SendMessageRequest { to_agent: "bob".into(), content: "hello bob".into(), msg_type: None };
    let bob = agent_row("bob");
    let (m, resp) = send_message("alice", &req, &vec![], Some(&bob), T0).unwrap();
    assert_eq!(m.from_agent, "alice");
    assert_eq!(m.to_agent, Some("bob".into()));
    assert_eq!(m.content, "hello bob");
    assert_eq!(m.channel_id, None);
    assert_eq!(m.id.len(), 36);
    assert_eq!(resp.id, m.id);
    assert_eq!(resp.msg_type, "text");
}

#[test]
fn send_to_self_rejected() {
    let req = SendMessageRequest { to_agent: "alice".into(), content: "hi".into(), msg_type: None };
    let me = agent_row("alice");
    let e = send_message("alice", &req, &vec![], Some(&me), T0).err().unwrap();
    assert_eq!(e.status_code(), 422);
    assert_eq!(e.message(), "validation: cannot send message to self");
}

#[test]
fn send_rejections() {
    let bob = agent_row("bob");
    let blank = SendMessageRequest { to_agent: "bob".into(), content: " \t\n".into(), msg_type: None };
    assert_eq!(send_message("alice", &blank, &vec![], Some(&bob), T0).err().unwrap().message(), "validation: content must not be empty");
    let req = SendMessageRequest { to_agent: "bob".into(), content: "hi".into(), msg_type: None };
    let e = send_message("alice", &req, &vec![block("bob", "alice")], Some(&bob), T0).err().unwrap();
    assert_eq!(e.status_code(), 403);
    assert_eq!(e.message(), "forbidden: cannot send message — blocked");
    assert_eq!(send_message("alice", &req, &vec![], None, T0).err().unwrap().message(), "not found: agent 'bob' not found");
    let img = SendMessageRequest { to_agent: "bob".into(), content: "hi".into(), msg_type: Some("image".into()) };
    assert_eq!(send_message("alice", &img, &vec![], Some(&bob), T0).err().unwrap().message(), "validation: unsupported msg_type: image");
}

#[test]
fn inbox_shows_unread_only() {
    let msgs = vec![msg("msg-1", "bob", "alice", "hello 1", T0), msg("msg-2", "bob", "alice", "hello 2", T0)];
    let agents = vec![agent_row("bob")];
    let s = build_inbox_summary(&msgs, &vec![], &agents, "alice");
    assert_eq!(s.len(), 1);
    assert_eq!(s[0].unread_count, 2);
    let s = build_inbox_summary(&msgs, &vec![read("alice", "msg-1")], &agents, "alice");
    assert_eq!(s[0].unread_count, 1);
}

#[test]
fn inbox_returns_unread_summary() {
    let msgs = vec![
        msg("msg-1", "bob", "alice", "hi 1", T0),
        msg("msg-2", "bob", "alice", "hi 2", T0),
        msg("msg-3", "bob", "alice", "hi 3", T0),
        msg("msg-4", "carol", "alice", "hello", T0),
        msg("msg-5", "alice", "bob", "not mine", T0),
    ];
    let agents = vec![agent_row("bob"), agent_row("carol")];
    let summary = build_inbox_summary(&msgs, &vec![], &agents, "alice");
    assert_eq!(summary.len(), 2);
    assert_eq!(summary[0].from_agent, "bob");
    assert_eq!(summary[0].unread_count, 3);
    assert_eq!(summary[0].agent_name, "Agent bob");
    assert_eq!(summary[1].from_agent, "carol");
    assert_eq!(summary[1].unread_count, 1);
    let summary = build_inbox_summary(&msgs, &vec![read("alice", "msg-1")], &agents, "alice");
    let bob_entry = summary.iter().find(|e| e.from_agent == "bob").unwrap();
    assert_eq!(bob_entry.unread_count, 2);
}

#[test]
fn inbox_sorts_by_unread_count() {
    let msgs = vec![
        msg("m1", "carol", "alice", "x", T0),
        msg("m2", "bob", "alice", "x", T0),
        msg("m3", "bob", "alice", "x", T0),
        msg("m4", "dave", "alice", "x", T0),
        msg("m5", "dave", "alice", "x", T0),
        msg("m6", "dave", "alice", "x", T0),
    ];
    let s = build_inbox_summary(&msgs, &vec![], &vec![], "alice");
    let counts: Vec<u32> = s.iter().map(|e| e.unread_count).collect();
    assert_eq!(counts, vec![3, 2, 1]);
    assert_eq!(s[0].from_agent, "dave");
    assert_eq!(s[0].agent_name, "");
}

#[test]
fn history_auto_marks_read() {
    let mut msgs = vec![msg("msg-1", "bob", "alice", "hello 1", T0), msg("msg-2", "bob", "alice", "hello 2", T0)];
    let summary = build_inbox_summary(&msgs, &vec![], &vec![], "alice");
    assert_eq!(summary.len(), 1);
    assert_eq!(summary[0].unread_count, 2);
    let markers = mark_read_from(&msgs, &vec![], "alice", "bob", T0 + 1);
    assert_eq!(markers.len(), 2);
    msgs.push(msg("msg-3", "carol", "alice", "other", T0));
    let summary = build_inbox_summary(&msgs, &markers, &vec![], "alice");
    assert_eq!(summary.len(), 1);
    assert_eq!(summary[0].from_agent, "carol");
}

#[test]
fn mark_all_read_clears_inbox() {
    let msgs = vec![msg("m1", "bob", "alice", "x", T0), msg("m2", "carol", "alice", "y", T0)];
    let markers = mark_all_read(&msgs, &vec![read("alice", "m1")], "alice", T0);
    assert_eq!(markers.len(), 1);
    assert_eq!(markers[0].message_id, "m2");
    let mut reads = vec![read("alice", "m1")];
    reads.extend(markers);
    assert!(build_inbox_summary(&msgs, &reads, &vec![], "alice").is_empty());
}

#[test]
fn mark_read_is_idempotent() {
    let m = msg("msg-1", "bob", "alice", "hello", T0);
    let first = mark_read("alice", "msg-1", Some(&m), None, T0).unwrap();
    let marker = first.unwrap();
    assert_eq!(marker.message_id, "msg-1");
    let second = mark_read("alice", "msg-1", Some(&m), Some(&marker), T0).unwrap();
    assert!(second.is_none());
    let e = mark_read("bob", "msg-1", Some(&m), None, T0).err().unwrap();
    assert_eq!(e.message(), "not found: message not found");
}

#[test]
fn chat_history_returns_both_directions() {
    let msgs = vec![
        msg("msg-a2b", "alice", "bob", "hi bob", T0),
        msg("msg-b2a", "bob", "alice", "hi alice", T0 + 1),
        msg("msg-a2c", "alice", "carol", "hi carol", T0 + 2),
    ];
    let params = ChatHistoryParams { before: None, limit: None };
    let page = chat_history("alice", "bob", &params, &msgs, None, &vec![], T0 + 5);
    let ids: Vec<&str> = page.messages.iter().map(|m| m.id.as_str()).collect();
    assert_eq!(ids, vec!["msg-b2a", "msg-a2b"]);
    assert_eq!(page.read_markers.len(), 1);
    assert_eq!(page.read_markers[0].message_id, "msg-b2a");
}

#[test]
fn chat_history_pages_with_cursor_and_limit() {
    let msgs: Vec<message::Model> = (0..30).map(|i| msg(&format!("m{}", i), "bob", "alice", "x", T0 + i)).collect();
    let params = ChatHistoryParams { before: None, limit: Some(50) };
    let page = chat_history("alice", "bob", &params, &msgs, None, &vec![], T0);
    assert_eq!(page.messages.len(), 20);
    assert_eq!(page.messages[0].id, "m29");
    let cursor = msgs[10].duplicate();
    let params = ChatHistoryParams { before: Some("m10".into()), limit: Some(3) };
    let page = chat_history("alice", "bob", &params, &msgs, Some(&cursor), &vec![], T0);
    let ids: Vec<&str> = page.messages.iter().map(|m| m.id.as_str()).collect();
    assert_eq!(ids, vec!["m9", "m8", "m7"]);
}

#[test]
fn blocked_contact_prevents_sending() {
    let contacts = vec![block("alice", "bob")];
    assert!(check_blocked(&contacts, "alice", "bob"));
    assert!(check_blocked(&contacts, "bob", "alice"));
    assert!(!check_blocked(&contacts, "alice", "alice"));
}

#[test]
fn search_finds_matching_messages() {
    let msgs = vec![
        msg("msg-1", "alice", "bob", "hello world", T0),
        msg("msg-2", "bob", "alice", "goodbye world", T0),
        msg("msg-3", "carol", "dave", "world of others", T0),
    ];
    let ids = vec!["msg-2".to_string(), "msg-3".to_string(), "msg-1".to_string()];
    let found = search("alice", &ids, &msgs);
    let got: Vec<&str> = found.iter().map(|m| m.id.as_str()).collect();
    assert_eq!(got, vec!["msg-2", "msg-1"]);
    assert!(search("alice", &vec![], &msgs).is_empty());
}

#[test]
fn search_terms_are_trimmed() {
    assert_eq!(search_terms("  world \n").unwrap(), "world");
    let e = search_terms(" \u{3000} ").err().unwrap();
    assert_eq!(e.message(), "validation: search query must not be empty");
}

#[test]
fn sorting_puts_newest_first() {
    let msgs = vec![msg("a", "x", "y", "", 3), msg("b", "x", "y", "", 9), msg("c", "x", "y", "", 5)];
    let sorted = sort_newest_first(msgs);
    let ids: Vec<&str> = sorted.iter().map(|m| m.id.as_str()).collect();
    assert_eq!(ids, vec!["b", "c", "a"]);
}

#[test]
fn message_response_formats_time() {
    let r = to_response(&msg("m", "a", "b", "c", 0));
    assert_eq!(r.created_at, "1970-01-01T00:00:00+00:00");
}

#[test]
fn history_leaves_one_marker_per_message() {
    let msgs = vec![
        msg("m1", "bob", "alice", "one", T0),
        msg("m2", "bob", "alice", "two", T0 + 1),
        msg("m3", "carol", "alice", "other", T0 + 2),
    ];
    let reads = vec![read("alice", "m1")];
    let added = mark_read_from(&msgs, &reads, "alice", "bob", T0 + 10);
    assert_eq!(added.len(), 1);
    assert_eq!(added[0].message_id, "m2");
    assert_eq!(added[0].agent_id, "alice");
    let mut all: Vec<(String, String)> = reads
        .iter()
        .chain(added.iter())
        .map(|r| (r.agent_id.clone(), r.message_id.clone()))
        .collect();
    all.sort();
    assert_eq!(
        all,
        vec![
            ("alice".to_string(), "m1".to_string()),
            ("alice".to_string(), "m2".to_string())
        ]
    );
}
