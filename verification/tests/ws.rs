use agentim::entity::agent;
use agentim::ws::{delivered_count, kept_senders, ws_authorize, ws_claims, ConnectionRegistry, WsParams};

#[test]
fn registry_register_and_push() {
    let mut registry = ConnectionRegistry::new();
    let mut rx = registry.register("agent-1");
    let delivered = registry.push("agent-1", r#"{"type":"test"}"#);
    assert_eq!(delivered, 1);
    let msg = rx.try_recv().unwrap();
    assert_eq!(msg, r#"{"type":"test"}"#);
}

#[test]
fn push_to_unregistered_agent_delivers_nothing() {
    let registry = ConnectionRegistry::new();
    assert_eq!(registry.push("nonexistent", "hello"), 0);
}

#[test]
fn multiple_connections_all_receive() {
    let mut registry = ConnectionRegistry::new();
    let mut rx1 = registry.register("agent-1");
    let mut rx2 = registry.register("agent-1");
    assert_eq!(registry.push("agent-1", "broadcast"), 2);
    assert_eq!(rx1.try_recv().unwrap(), "broadcast");
    assert_eq!(rx2.try_recv().unwrap(), "broadcast");
    assert_eq!(registry.online_count(), 1);
}

#[test]
fn cleanup_removes_closed_senders() {
    let mut registry = ConnectionRegistry::new();
    let rx = registry.register("agent-1");
    drop(rx);
    registry.cleanup("agent-1");
    assert_eq!(registry.online_count(), 0);
}

#[test]
fn cleanup_keeps_open_connections() {
    let mut registry = ConnectionRegistry::new();
    let closed = registry.register("agent-1");
    let mut open = registry.register("agent-1");
    drop(closed);
    registry.cleanup("agent-1");
    assert_eq!(registry.online_count(), 1);
    assert_eq!(registry.push("agent-1", "still here"), 1);
    assert_eq!(open.try_recv().unwrap(), "still here");
}

#[test]
fn push_to_channel_members_excludes_sender() {
    let mut registry = ConnectionRegistry::new();
    let mut rx_a = registry.register("alice");
    let mut rx_b = registry.register("bob");
    let members = vec!["alice".to_string(), "bob".to_string()];
    let delivered = registry.push_to_channel_members(&members, "alice", "msg");
    assert_eq!(delivered, 1);
    assert!(rx_a.try_recv().is_err());
    assert_eq!(rx_b.try_recv().unwrap(), "msg");
}

#[test]
fn websocket_needs_a_valid_token_and_active_agent() {
    let params = WsParams { token: "not-a-jwt".into() };
    let e = ws_claims(&params, "secret").err().unwrap();
    assert_eq!(e.message(), "unauthorized: invalid token");
    let e = ws_authorize(None).err().unwrap();
    assert_eq!(e.status_code(), 401);
    let a = agent::Model {
        id: "sus".into(),
        user_id: "u".into(),
        name: "s".into(),
        reauth_required: false,
        avatar_url: None,
        bio: None,
        status: agent::AgentStatus::Suspended,
        created_at: 0,
        updated_at: 0,
    };
    assert_eq!(ws_authorize(Some(a)).err().unwrap().status_code(), 403);
}

#[test]
fn websocket_token_from_create_jwt_is_accepted() {
    let token = agentim::auth::token::create_jwt("agent-1", "cred-1", "secret").unwrap();
    let claims = ws_claims(&WsParams { token }, "secret").unwrap();
    assert_eq!(claims.sub, "agent-1");
}

#[test]
fn delivered_count_counts_successes() {
    assert_eq!(delivered_count(&vec![]), 0);
    assert_eq!(delivered_count(&vec![true, false, true, true]), 3);
    assert_eq!(delivered_count(&vec![false, false]), 0);
}

#[test]
fn kept_senders_keeps_open_ones_in_order() {
    let (tx1, mut rx1) = tokio::sync::mpsc::unbounded_channel::<String>();
    let (tx2, _rx2) = tokio::sync::mpsc::unbounded_channel::<String>();
    let (tx3, mut rx3) = tokio::sync::mpsc::unbounded_channel::<String>();
    let kept = kept_senders(vec![tx1, tx2, tx3], &vec![false, true, false]);
    assert_eq!(kept.len(), 2);
    kept[0].send("a".to_string()).unwrap();
    kept[1].send("b".to_string()).unwrap();
    assert_eq!(rx1.try_recv().unwrap(), "a");
    assert_eq!(rx3.try_recv().unwrap(), "b");
}

#[test]
fn push_counts_only_live_connections() {
    let mut registry = ConnectionRegistry::new();
    let mut rx1 = registry.register("agent-1");
    let rx2 = registry.register("agent-1");
    drop(rx2);
    assert_eq!(registry.push("agent-1", "hi"), 1);
    assert_eq!(rx1.try_recv().unwrap(), "hi");
    registry.cleanup("agent-1");
    assert_eq!(registry.online_count(), 1);
    assert_eq!(registry.push("agent-1", "again"), 1);
}
