//! Owner login through GitHub OAuth, and the logged-in user.

use vstd::prelude::*;
use vstd::string::*;
use crate::api::dto::MeResponse;
use crate::clock::{self, valid_time};
use crate::entity::user;
use crate::error::{AppError, fails_internal, fails_unauthorized};
use crate::ids::new_id;
use crate::text;

verus! {

/// The GitHub account of a user, as GitHub reports it.
pub struct GitHubUser {
    pub id: i64,
    pub login: String,
    pub avatar_url: Option<String>,
}

/// The OAuth application with which the server talks to GitHub.
pub struct RealGitHubClient {
    pub client_id: String,
    pub client_secret: String,
}

/// The query of GitHub's redirect back to the server.
pub struct CallbackParams {
    pub code: String,
    pub state: String,
}

/// GitHub's authorization page for the client, with a state token.
pub open spec fn authorize_url(client_id: Seq<char>, state: Seq<char>) -> Seq<char> {
    "https://github.com/login/oauth/authorize?client_id="@ + client_id + "&state="@ + state
        + "&scope=read:user"@
}

/// Start the GitHub OAuth flow: the address to send the browser to, with a
/// fresh state token.
pub fn github_auth(client_id: &str) -> (r: Result<String, AppError>)
    ensures
        client_id@.len() == 0 ==> fails_internal(r, "GitHub OAuth not configured"@),
        r is Ok <==> client_id@.len() > 0,
        r matches Ok(url) ==> exists|state: Seq<char>|
            state.len() == 36 && url@ == #[trigger] authorize_url(client_id@, state),
{
    if client_id.unicode_len() == 0 {
        return Err(AppError::Internal(String::from_str("GitHub OAuth not configured")));
    }
    let state = new_id();
    proof {
        reveal_strlit("https://github.com/login/oauth/authorize?client_id=");
        reveal_strlit("&state=");
        reveal_strlit("&scope=read:user");
    }
    let mut url = text::concat3(
        "https://github.com/login/oauth/authorize?client_id=",
        client_id,
        "&state=",
    );
    url.append(state.as_str());
    url.append("&scope=read:user");
    proof {
        assert(url@ =~= authorize_url(client_id@, state@));
    }
    Ok(url)
}

/// Check GitHub's redirect before the code is exchanged: OAuth must be
/// configured and the state present.
pub fn check_callback(client_id: &str, params: &CallbackParams) -> (r: Result<(), AppError>)
    ensures
        client_id@.len() == 0 ==> fails_internal(r, "GitHub OAuth not configured"@),
        client_id@.len() > 0 && params.state@.len() == 0 ==> fails_unauthorized(
            r,
            "invalid OAuth state"@,
        ),
        r is Ok <==> client_id@.len() > 0 && params.state@.len() > 0,
{
    if client_id.unicode_len() == 0 {
        return Err(AppError::Internal(String::from_str("GitHub OAuth not configured")));
    }
    if params.state.as_str().unicode_len() == 0 {
        return Err(AppError::Unauthorized(String::from_str("invalid OAuth state")));
    }
    Ok(())
}

/// The user after a GitHub login: the stored user under the GitHub id with
/// name and avatar refreshed, or a new user with a fresh id.
pub open spec fn logged_in_user(
    gh: GitHubUser,
    existing: Option<user::Model>,
    now: i64,
    u: user::Model,
) -> bool {
    &&& u.github_id == gh.id
    &&& u.github_name@ == gh.login@
    &&& u.avatar_url == gh.avatar_url
    &&& u.updated_at == now
    &&& match existing {
        Some(e) => u.id == e.id && u.created_at == e.created_at,
        None => u.id@.len() == 36 && u.created_at == now,
    }
}

/// Record a GitHub login: `existing` is the user stored under the GitHub
/// id, if any. Gives the row to save and whether it is new.
pub fn upsert_github_user(gh: GitHubUser, existing: Option<user::Model>, now: i64) -> (r: (
    user::Model,
    bool,
))
    ensures
        logged_in_user(gh, existing, now, r.0),
        r.1 <==> existing is None,
{
    match existing {
        Some(e) => {
            let mut u = e;
            u.github_id = gh.id;
            u.github_name = gh.login;
            u.avatar_url = gh.avatar_url;
            u.updated_at = now;
            (u, false)
        },
        None => {
            let u = user::Model {
                id: new_id(),
                github_id: gh.id,
                github_name: gh.login,
                avatar_url: gh.avatar_url,
                created_at: now,
                updated_at: now,
            };
            (u, true)
        },
    }
}

/// A user who logs in again keeps their id and creation time.
pub proof fn login_keeps_identity(gh: GitHubUser, e: user::Model, now: i64, u: user::Model)
    requires
        logged_in_user(gh, Some(e), now, u),
    ensures
        u.id == e.id,
        u.created_at == e.created_at,
{
}

/// The logged-in user, as shown to them.
pub fn me(u: &user::Model) -> (r: MeResponse)
    requires
        valid_time(u.created_at),
    ensures
        r.id@ == u.id@,
        r.github_name@ == u.github_name@,
        r.avatar_url == u.avatar_url,
        r.created_at@ == clock::spec_rfc3339(u.created_at),
{
    MeResponse {
        id: u.id.clone(),
        github_name: u.github_name.clone(),
        avatar_url: u.avatar_url.clone(),
        created_at: clock::rfc3339(u.created_at),
    }
}

} // verus!
