//! Who is calling: agents by JWT bearer token, owners by session, and owners
//! acting for one of their agents.
//!
//! Each check takes what the request carries (a header, the session's
//! state) and the rows stored under the ids it names.

use vstd::prelude::*;
use vstd::string::*;
use crate::api::agents::{agent_not_found, agent_not_found_text};
use crate::auth::token::{self, JwtClaims};
use crate::entity::{agent, agent_credential, user};
use crate::error::{AppError, fails_forbidden, fails_internal, fails_not_found, fails_unauthorized};
use crate::text;

verus! {

/// An authenticated agent: the agent, and the credential its token names.
pub struct AgentAuth {
    pub agent: agent::Model,
    pub credential_id: String,
}

/// An agent acting by token, or an owner acting for the agent: the
/// credential is known only in the first case.
pub struct AgentAccess {
    pub agent: agent::Model,
    pub credential_id: Option<String>,
}

/// A logged-in user.
pub struct UserSession {
    pub user: user::Model,
}

/// What the session of a request holds.
pub enum SessionState {
    /// The request carries no session.
    Missing,
    /// The session could not be read.
    Unreadable,
    /// The session holds no user.
    Anonymous,
    /// The session holds the id of a user.
    LoggedIn(String),
}

/// Which way a request that may act for an agent is admitted.
pub enum AccessRoute {
    /// By the bearer token of its Authorization header.
    Token,
    /// By the owner's session and the agent the request names.
    Session,
}

/// A request with an Authorization header is admitted by its token (and
/// refused if the token fails), whatever its session holds; one without is
/// admitted by session.
pub fn access_route(authorization: Option<&str>) -> (r: AccessRoute)
    ensures
        r is Token <==> authorization is Some,
{
    match authorization {
        Some(_) => AccessRoute::Token,
        None => AccessRoute::Session,
    }
}

/// The token of an `Authorization: Bearer <token>` header value.
pub open spec fn bearer_of(header: Seq<char>) -> Option<Seq<char>> {
    if header.len() >= 7 && header.subrange(0, 7) == "Bearer "@ {
        Some(header.subrange(7, header.len() as int))
    } else {
        None
    }
}

/// The token of an Authorization header: an error when there is none, or
/// when it does not start with `Bearer `.
pub fn bearer_token(header: Option<&str>) -> (r: Result<String, AppError>)
    ensures
        header is None ==> fails_unauthorized(r, "missing Authorization header"@),
        (header matches Some(h) && bearer_of(h@) is None) ==> fails_unauthorized(
            r,
            "invalid Authorization format"@,
        ),
        r matches Ok(t) ==> header matches Some(h) && bearer_of(h@) == Some(t@),
        r is Ok <==> (header matches Some(h) && bearer_of(h@) is Some),
{
    let h = match header {
        None => {
            return Err(AppError::Unauthorized(String::from_str("missing Authorization header")));
        },
        Some(h) => h,
    };
    proof {
        reveal_strlit("Bearer ");
    }
    let n = h.unicode_len();
    if n >= 7 && text::text_eq(h.substring_char(0, 7), "Bearer ") {
        Ok(String::from_str(h.substring_char(7, n)))
    } else {
        Err(AppError::Unauthorized(String::from_str("invalid Authorization format")))
    }
}

/// The claims of the bearer token of an Authorization header. A token that
/// does not verify is refused with the verification's message.
pub fn bearer_claims(header: Option<&str>, secret: &str) -> (r: Result<JwtClaims, AppError>)
    ensures
        header is None ==> fails_unauthorized(r, "missing Authorization header"@),
        (header matches Some(h) && bearer_of(h@) is None) ==> fails_unauthorized(
            r,
            "invalid Authorization format"@,
        ),
        r is Ok ==> (header matches Some(h) && bearer_of(h@) is Some),
        header matches Some(h) ==> (bearer_of(h@) matches Some(t) ==> (r matches Ok(c)
            ==> token::verify_jwt_post(t, secret@, Ok::<JwtClaims, String>(c)))),
        r matches Err(e) ==> e is Unauthorized,
{
    let t = bearer_token(header)?;
    match token::verify_jwt(t.as_str(), secret) {
        Ok(c) => Ok(c),
        Err(m) => Err(AppError::Unauthorized(m)),
    }
}

/// Why the agent and credential named by a token are refused, if they are.
pub open spec fn token_refusal<T>(
    agent: Option<agent::Model>,
    cred: Option<agent_credential::Model>,
    r: Result<T, AppError>,
) -> Option<bool> {
    match agent {
        None => Some(fails_unauthorized(r, "agent not found"@)),
        Some(a) => if a.status == agent::AgentStatus::Suspended {
            Some(fails_forbidden(r, "agent is suspended"@))
        } else if a.reauth_required {
            Some(fails_forbidden(r, "re-authentication required"@))
        } else {
            match cred {
                None => Some(fails_unauthorized(r, "credential not found"@)),
                Some(c) => if c.status != agent_credential::CredentialStatus::Active {
                    Some(fails_unauthorized(r, "credential revoked"@))
                } else {
                    None
                },
            }
        },
    }
}

/// Admission by token: an agent is admitted only when it is stored, active,
/// not asked to re-authenticate, and presents a stored active credential;
/// a suspended agent is refused as forbidden with "agent is suspended", an
/// unknown one as unauthorized with "agent not found".
pub proof fn token_admits_only_active_agents<T>(
    agent: Option<agent::Model>,
    cred: Option<agent_credential::Model>,
    r: Result<T, AppError>,
)
    requires
        token_refusal(agent, cred, r) matches Some(ok) ==> ok,
        r is Ok <==> token_refusal(agent, cred, r) is None,
    ensures
        r is Ok ==> (agent matches Some(a) && a.status == agent::AgentStatus::Active
            && !a.reauth_required) && (cred matches Some(c) && c.status
            == agent_credential::CredentialStatus::Active),
        agent matches Some(a) && a.status == agent::AgentStatus::Suspended ==> (r matches Err(
            AppError::Forbidden(m),
        ) && m@ == "agent is suspended"@),
        agent is None ==> (r matches Err(AppError::Unauthorized(m)) && m@ == "agent not found"@),
{
}

impl AgentAuth {
    /// Admit the agent named by verified claims. `agent` and `cred` are the
    /// rows stored under the claims' subject and credential, if any.
    pub fn authorize(
        claims: JwtClaims,
        agent: Option<agent::Model>,
        cred: Option<agent_credential::Model>,
    ) -> (r: Result<AgentAuth, AppError>)
        ensures
            token_refusal(agent, cred, r) matches Some(ok) ==> ok,
            r is Ok <==> token_refusal(agent, cred, r) is None,
            r matches Ok(a) ==> agent == Some(a.agent) && a.credential_id@ == claims.cid@,
            r is Ok ==> (agent matches Some(a) && a.status == agent::AgentStatus::Active
                && !a.reauth_required) && (cred matches Some(c) && c.status
                == agent_credential::CredentialStatus::Active),
            agent matches Some(a) && a.status == agent::AgentStatus::Suspended ==> (r matches Err(
                AppError::Forbidden(m),
            ) && m@ == "agent is suspended"@),
    {
        proof {
            reveal_strlit("agent is suspended");
        }
        let a = match agent {
            None => {
                return Err(AppError::Unauthorized(String::from_str("agent not found")));
            },
            Some(a) => a,
        };
        if a.status == agent::AgentStatus::Suspended {
            return Err(AppError::Forbidden(String::from_str("agent is suspended")));
        }
        if a.reauth_required {
            return Err(AppError::Forbidden(String::from_str("re-authentication required")));
        }
        match cred {
            None => Err(AppError::Unauthorized(String::from_str("credential not found"))),
            Some(c) => {
                if c.status != agent_credential::CredentialStatus::Active {
                    Err(AppError::Unauthorized(String::from_str("credential revoked")))
                } else {
                    Ok(AgentAuth { agent: a, credential_id: claims.cid })
                }
            },
        }
    }
}

impl AgentAccess {
    /// Admit an agent that presents a bearer token: as for `AgentAuth`, and
    /// the credential is known.
    pub fn by_token(
        claims: JwtClaims,
        agent: Option<agent::Model>,
        cred: Option<agent_credential::Model>,
    ) -> (r: Result<AgentAccess, AppError>)
        ensures
            token_refusal(agent, cred, r) matches Some(ok) ==> ok,
            r is Ok <==> token_refusal(agent, cred, r) is None,
            r matches Ok(a) ==> agent == Some(a.agent) && text::opt_text(a.credential_id) == Some(
                claims.cid@,
            ),
            r is Ok ==> (agent matches Some(a) && a.status == agent::AgentStatus::Active
                && !a.reauth_required) && (cred matches Some(c) && c.status
                == agent_credential::CredentialStatus::Active),
            agent matches Some(a) && a.status == agent::AgentStatus::Suspended ==> (r matches Err(
                AppError::Forbidden(m),
            ) && m@ == "agent is suspended"@),
    {
        match AgentAuth::authorize(claims, agent, cred) {
            Ok(a) => Ok(AgentAccess { agent: a.agent, credential_id: Some(a.credential_id) }),
            Err(e) => Err(e),
        }
    }

    /// Admit an owner acting for one of their agents: `agent_header` is the
    /// agent id the request names, `session` what its session holds, and
    /// `agent` the agent stored under the named id, if any.
    pub fn by_session(
        agent_header: Option<&str>,
        session: &SessionState,
        agent: Option<agent::Model>,
    ) -> (r: Result<AgentAccess, AppError>)
        ensures
            agent_header is None ==> fails_unauthorized(r, "unauthorized"@),
            agent_header is Some && session is Missing ==> fails_unauthorized(r, "no session"@),
            agent_header is Some && session is Unreadable ==> fails_internal(r, "session read error"@),
            agent_header is Some && session is Anonymous ==> fails_unauthorized(r, "not logged in"@),
            agent_header matches Some(h) ==> (session is LoggedIn && agent is None ==> fails_not_found(
                r,
                agent_not_found_text(h@),
            )),
            (session matches SessionState::LoggedIn(u) && agent_header is Some && (agent matches Some(
                a,
            ) && a.user_id@ != u@)) ==> fails_forbidden(r, "not your agent"@),
            (session matches SessionState::LoggedIn(u) && agent_header is Some && (agent matches Some(
                a,
            ) && a.user_id@ == u@ && a.status == agent::AgentStatus::Suspended)) ==> fails_forbidden(
                r,
                "agent is suspended"@,
            ),
            r is Ok <==> (session matches SessionState::LoggedIn(u) && agent_header is Some && (
            agent matches Some(a) && a.user_id@ == u@ && a.status == agent::AgentStatus::Active)),
            r matches Ok(a) ==> agent == Some(a.agent) && a.credential_id is None,
    {
        let h = match agent_header {
            None => {
                return Err(AppError::Unauthorized(String::from_str("unauthorized")));
            },
            Some(h) => h,
        };
        let user_id = match session {
            SessionState::Missing => {
                return Err(AppError::Unauthorized(String::from_str("no session")));
            },
            SessionState::Unreadable => {
                return Err(AppError::Internal(String::from_str("session read error")));
            },
            SessionState::Anonymous => {
                return Err(AppError::Unauthorized(String::from_str("not logged in")));
            },
            SessionState::LoggedIn(u) => u,
        };
        let a = match agent {
            None => {
                return Err(agent_not_found(h));
            },
            Some(a) => a,
        };
        if !text::text_eq(a.user_id.as_str(), user_id.as_str()) {
            return Err(AppError::Forbidden(String::from_str("not your agent")));
        }
        if a.status == agent::AgentStatus::Suspended {
            return Err(AppError::Forbidden(String::from_str("agent is suspended")));
        }
        Ok(AgentAccess { agent: a, credential_id: None })
    }
}

impl UserSession {
    /// Admit the user of a session: `user` is the user stored under the id
    /// the session holds, if any.
    pub fn from_session(session: &SessionState, user: Option<user::Model>) -> (r: Result<
        UserSession,
        AppError,
    >)
        ensures
            session is Missing ==> fails_unauthorized(r, "no session"@),
            session is Unreadable ==> fails_internal(r, "session read error"@),
            session is Anonymous ==> fails_unauthorized(r, "not logged in"@),
            session is LoggedIn && user is None ==> fails_unauthorized(r, "user not found"@),
            r is Ok <==> session is LoggedIn && user is Some,
            r matches Ok(s) ==> user == Some(s.user),
    {
        match session {
            SessionState::Missing => Err(AppError::Unauthorized(String::from_str("no session"))),
            SessionState::Unreadable => Err(AppError::Internal(String::from_str("session read error"))),
            SessionState::Anonymous => Err(AppError::Unauthorized(String::from_str("not logged in"))),
            SessionState::LoggedIn(_) => match user {
                None => Err(AppError::Unauthorized(String::from_str("user not found"))),
                Some(u) => Ok(UserSession { user: u }),
            },
        }
    }
}

} // verus!
