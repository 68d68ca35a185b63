use agentim::api::auth::{check_callback, github_auth, me, upsert_github_user, CallbackParams, GitHubUser};
use agentim::auth::extractor::{SessionState, UserSession};
use agentim::entity::user;

#[test]
fn github_auth_returns_redirect_to_github() {
    let url = github_auth("test_client_id").unwrap();
    assert!(url.starts_with("https://github.com/login/oauth/authorize"));
    assert!(url.contains("client_id=test_client_id"));
    assert!(url.ends_with("&scope=read:user"));
}

#[test]
fn github_auth_fails_when_not_configured() {
    let e = github_auth("").err().unwrap();
    assert_eq!(e.status_code(), 500);
    assert_eq!(e.message(), "internal: GitHub OAuth not configured");
}

#[test]
fn callback_checks_state() {
    let params = CallbackParams { code: "testcode".into(), state: String::new() };
    assert_eq!(check_callback("id", &params).err().unwrap().message(), "unauthorized: invalid OAuth state");
    let params = CallbackParams { code: "testcode".into(), state: "teststate".into() };
    assert!(check_callback("id", &params).is_ok());
    assert_eq!(check_callback("", &params).err().unwrap().status_code(), 500);
}

#[test]
fn callback_creates_new_user_on_first_login() {
    let gh = GitHubUser { id: 789, login: "newuser".into(), avatar_url: Some("https://example.com/new.png".into()) };
    let (u, created) = upsert_github_user(gh, None, 42);
    assert!(created);
    assert_eq!(u.github_id, 789);
    assert_eq!(u.github_name, "newuser");
    assert_eq!(u.avatar_url, Some("https://example.com/new.png".into()));
    assert_eq!(u.id.len(), 36);
}

#[test]
fn callback_updates_existing_user_on_re_login() {
    let existing = user::Model {
        id: "existing-user".into(),
        github_id: 999,
        github_name: "oldname".into(),
        avatar_url: Some("https://example.com/old.png".into()),
        created_at: 1,
        updated_at: 1,
    };
    let gh = GitHubUser { id: 999, login: "newname".into(), avatar_url: Some("https://example.com/new.png".into()) };
    let (u, created) = upsert_github_user(gh, Some(existing), 50);
    assert!(!created);
    assert_eq!(u.id, "existing-user");
    assert_eq!(u.github_name, "newname");
    assert_eq!(u.avatar_url, Some("https://example.com/new.png".into()));
    assert_eq!(u.created_at, 1);
    assert_eq!(u.updated_at, 50);
}

#[test]
fn me_returns_user_with_valid_session() {
    let u = user::Model {
        id: "user-abc".into(),
        github_id: 456,
        github_name: "sessionuser".into(),
        avatar_url: Some("https://example.com/avatar.png".into()),
        created_at: 0,
        updated_at: 0,
    };
    let r = me(&u);
    assert_eq!(r.id, "user-abc");
    assert_eq!(r.github_name, "sessionuser");
    assert_eq!(r.created_at, "1970-01-01T00:00:00+00:00");
}

#[test]
fn me_returns_401_without_session() {
    // A browser without the session cookie gets an empty session.
    let e = UserSession::from_session(&SessionState::Anonymous, None).err().unwrap();
    assert_eq!(e.status_code(), 401);
    let e = UserSession::from_session(&SessionState::Missing, None).err().unwrap();
    assert_eq!(e.status_code(), 401);
}
