//! Agent management: validation of agent ids and the rules of the owner's
//! create / read / update / delete operations.

use vstd::prelude::*;
use vstd::string::*;
use crate::api::dto::{AgentResponse, CreateAgentRequest, CreateAgentResponse, UpdateAgentRequest};
use crate::clock::{self, valid_time};
use crate::consts;
use crate::entity::{agent, contact};
use crate::error::{AppError, fails_conflict, fails_forbidden, fails_not_found, fails_validation};
use crate::text;

verus! {

/// Characters allowed in an agent id: lowercase ASCII letters, digits, hyphen.
pub open spec fn agent_id_char(c: char) -> bool {
    ('a' <= c && c <= 'z') || ('0' <= c && c <= '9') || c == '-'
}

/// Bytes that a character takes in UTF-8.
pub open spec fn utf8_width(c: char) -> nat {
    if (c as u32) < 0x80 {
        1
    } else if (c as u32) < 0x800 {
        2
    } else if (c as u32) < 0x10000 {
        3
    } else {
        4
    }
}

/// Bytes that a text takes in UTF-8, which is what `str::len` counts.
pub open spec fn utf8_len(s: Seq<char>) -> nat
    decreases s.len(),
{
    if s.len() == 0 {
        0
    } else {
        utf8_len(s.drop_last()) + utf8_width(s.last())
    }
}

/// The byte length of a text in UTF-8 when it is at most `cap`, else some
/// number above `cap`.
fn utf8_len_up_to(s: &str, cap: usize) -> (r: usize)
    requires
        cap < usize::MAX - 4,
    ensures
        r <= cap ==> r == utf8_len(s@),
        r > cap ==> utf8_len(s@) > cap,
{
    let n = s.unicode_len();
    let mut total: usize = 0;
    let mut i: usize = 0;
    while i < n
        invariant
            n == s@.len(),
            i <= n,
            cap < usize::MAX - 4,
            total <= cap,
            total == utf8_len(s@.take(i as int)),
        decreases n - i,
    {
        let c = s.get_char(i);
        let w: usize = if (c as u32) < 0x80 {
            1
        } else if (c as u32) < 0x800 {
            2
        } else if (c as u32) < 0x10000 {
            3
        } else {
            4
        };
        proof {
            assert(s@.take(i + 1).drop_last() =~= s@.take(i as int));
        }
        total = total + w;
        i = i + 1;
        if total > cap {
            proof {
                utf8_len_prefix_grows(s@, i as int);
            }
            return total;
        }
    }
    proof {
        assert(s@.take(n as int) =~= s@);
    }
    total
}

/// A longer prefix takes at least as many bytes.
proof fn utf8_len_prefix_grows(s: Seq<char>, i: int)
    requires
        0 <= i <= s.len(),
    ensures
        utf8_len(s.take(i)) <= utf8_len(s),
    decreases s.len() - i,
{
    if i < s.len() {
        assert(s.take(i + 1).drop_last() =~= s.take(i));
        utf8_len_prefix_grows(s, i + 1);
    } else {
        assert(s.take(i) =~= s);
    }
}

/// An agent id is 3-50 bytes long and made of lowercase letters, digits and hyphens.
pub open spec fn valid_agent_id(id: Seq<char>) -> bool {
    &&& consts::AGENT_ID_MIN_LEN <= utf8_len(id) <= consts::AGENT_ID_MAX_LEN
    &&& forall|i: int| 0 <= i < id.len() ==> agent_id_char(#[trigger] id[i])
}

/// The length of an agent id is within bounds.
pub open spec fn agent_id_length_ok(id: Seq<char>) -> bool {
    consts::AGENT_ID_MIN_LEN <= utf8_len(id) <= consts::AGENT_ID_MAX_LEN
}

/// The detail of the error that an invalid agent id is refused with.
pub open spec fn agent_id_error(id: Seq<char>) -> Seq<char> {
    if !agent_id_length_ok(id) {
        "agent id must be 3-50 characters"@
    } else {
        "agent id must contain only lowercase letters, digits, and hyphens"@
    }
}

/// Validate agent ID: lowercase alphanumeric + hyphens, 3-50 chars.
pub fn validate_agent_id(id: &str) -> (r: Result<(), AppError>)
    ensures
        r is Ok <==> valid_agent_id(id@),
        !valid_agent_id(id@) ==> fails_validation(r, agent_id_error(id@)),
{
    let len = utf8_len_up_to(id, consts::AGENT_ID_MAX_LEN);
    if !(consts::AGENT_ID_MIN_LEN <= len && len <= consts::AGENT_ID_MAX_LEN) {
        return Err(AppError::Validation(String::from_str("agent id must be 3-50 characters")));
    }
    let n = id.unicode_len();
    let mut i: usize = 0;
    while i < n
        invariant
            n == id@.len(),
            i <= n,
            agent_id_length_ok(id@),
            forall|j: int| 0 <= j < i ==> agent_id_char(#[trigger] id@[j]),
        decreases n - i,
    {
        let c = id.get_char(i);
        if !(('a' <= c && c <= 'z') || ('0' <= c && c <= '9') || c == '-') {
            return Err(
                AppError::Validation(
                    String::from_str(
                        "agent id must contain only lowercase letters, digits, and hyphens",
                    ),
                ),
            );
        }
        i = i + 1;
    }
    Ok(())
}

/// The text of the error for an agent id that names no agent.
pub open spec fn agent_not_found_text(id: Seq<char>) -> Seq<char> {
    "agent '"@ + id + "' not found"@
}

/// `NotFound("agent '{id}' not found")`.
pub fn agent_not_found(id: &str) -> (r: AppError)
    ensures
        fails_not_found::<()>(Err(r), agent_not_found_text(id@)),
{
    proof {
        reveal_strlit("agent '");
        reveal_strlit("' not found");
    }
    AppError::NotFound(text::concat3("agent '", id, "' not found"))
}

/// What looking up an agent for its owner answers: the agent, or why not.
pub open spec fn owned_agent_result(
    found: Option<agent::Model>,
    agent_id: Seq<char>,
    user_id: Seq<char>,
    r: Result<agent::Model, AppError>,
) -> bool {
    match found {
        None => fails_not_found(r, agent_not_found_text(agent_id)),
        Some(a) => if a.user_id@ != user_id {
            fails_forbidden(r, "not your agent"@)
        } else {
            r == Ok::<agent::Model, AppError>(a)
        },
    }
}

/// Check that the agent found under `agent_id` exists and belongs to the user.
pub fn find_owned_agent(found: Option<agent::Model>, agent_id: &str, user_id: &str) -> (r: Result<
    agent::Model,
    AppError,
>)
    ensures
        owned_agent_result(found, agent_id@, user_id@, r),
{
    match found {
        None => Err(agent_not_found(agent_id)),
        Some(a) => {
            if !text::text_eq(a.user_id.as_str(), user_id) {
                return Err(AppError::Forbidden(String::from_str("not your agent")));
            }
            Ok(a)
        },
    }
}

/// Both timestamps of an agent can be written as RFC 3339.
pub open spec fn agent_times_valid(m: agent::Model) -> bool {
    valid_time(m.created_at) && valid_time(m.updated_at)
}

/// `r` shows agent `m` to its owner.
pub open spec fn shows_agent(m: agent::Model, r: AgentResponse) -> bool {
    &&& r.id@ == m.id@
    &&& r.name@ == m.name@
    &&& r.avatar_url == m.avatar_url
    &&& r.bio == m.bio
    &&& r.status@ == m.status.text()
    &&& r.created_at@ == clock::spec_rfc3339(m.created_at)
    &&& r.updated_at@ == clock::spec_rfc3339(m.updated_at)
}

/// Convert an agent row to the response shown to its owner.
pub fn to_agent_response(m: &agent::Model) -> (r: AgentResponse)
    requires
        agent_times_valid(*m),
    ensures
        shows_agent(*m, r),
{
    AgentResponse {
        id: m.id.clone(),
        name: m.name.clone(),
        avatar_url: m.avatar_url.clone(),
        bio: m.bio.clone(),
        status: m.status.as_string(),
        created_at: clock::rfc3339(m.created_at),
        updated_at: clock::rfc3339(m.updated_at),
    }
}

/// The agents in `agents` that belong to the user, in their order.
pub open spec fn owned_by(agents: Seq<agent::Model>, user_id: Seq<char>) -> Seq<agent::Model> {
    agents.filter(|a: agent::Model| a.user_id@ == user_id)
}

/// The number of agents in `agents` that belong to the user.
pub open spec fn owned_count(agents: Seq<agent::Model>, user_id: Seq<char>) -> nat {
    owned_by(agents, user_id).len()
}

/// Count the agents that belong to the user.
pub fn count_owned(agents: &Vec<agent::Model>, user_id: &str) -> (r: usize)
    ensures
        r == owned_count(agents@, user_id@),
{
    broadcast use vstd::seq_lib::group_filter_ensures;
    let mut n: usize = 0;
    let mut i: usize = 0;
    while i < agents.len()
        invariant
            i <= agents.len(),
            n == owned_count(agents@.take(i as int), user_id@),
            n <= i,
        decreases agents.len() - i,
    {
        proof {
            assert(agents@.take(i + 1) =~= agents@.take(i as int).push(agents@[i as int]));
            agents@.take(i as int).lemma_filter_push(
                agents@[i as int],
                |a: agent::Model| a.user_id@ == user_id@,
            );
        }
        if text::text_eq(agents[i].user_id.as_str(), user_id) {
            n = n + 1;
        }
        i = i + 1;
    }
    proof {
        assert(agents@.take(agents.len() as int) =~= agents@);
    }
    n
}

/// The row of a new agent with the given id, owner and profile, active and
/// needing no re-authentication, created and updated at `now`.
pub open spec fn new_agent_row(
    m: agent::Model,
    user_id: Seq<char>,
    req: CreateAgentRequest,
    now: i64,
) -> bool {
    &&& m.id@ == req.id@
    &&& m.user_id@ == user_id
    &&& m.name@ == req.name@
    &&& !m.reauth_required
    &&& m.avatar_url == req.avatar_url
    &&& m.bio == req.bio
    &&& m.status == agent::AgentStatus::Active
    &&& m.created_at == now
    &&& m.updated_at == now
}

/// Create an agent for a user: `owned` are the agents of the user, `existing`
/// the agent already stored under the requested id, if any. Gives the row to
/// insert and the answer.
pub fn create_agent(
    user_id: &str,
    req: CreateAgentRequest,
    owned: &Vec<agent::Model>,
    existing: Option<&agent::Model>,
    now: i64,
) -> (r: Result<(agent::Model, CreateAgentResponse), AppError>)
    requires
        valid_time(now),
    ensures
        !valid_agent_id(req.id@) ==> fails_validation(r, agent_id_error(req.id@)),
        valid_agent_id(req.id@) && owned_count(owned@, user_id@) >= consts::MAX_AGENTS_PER_USER
            ==> fails_validation(r, "maximum 50 agents per user"@),
        valid_agent_id(req.id@) && owned_count(owned@, user_id@) < consts::MAX_AGENTS_PER_USER
            && existing is Some ==> fails_conflict(
            r,
            "agent id '"@ + req.id@ + "' already exists"@,
        ),
        r is Ok <==> valid_agent_id(req.id@) && owned_count(owned@, user_id@)
            < consts::MAX_AGENTS_PER_USER && existing is None,
        r matches Ok((m, resp)) ==> new_agent_row(m, user_id@, req, now) && resp.id@ == req.id@
            && resp.name@ == req.name@ && resp.created_at@ == clock::spec_rfc3339(now),
{
    match validate_agent_id(req.id.as_str()) {
        Err(e) => {
            return Err(e);
        },
        Ok(()) => {},
    }
    let count = count_owned(owned, user_id);
    if count >= consts::MAX_AGENTS_PER_USER {
        return Err(AppError::Validation(String::from_str("maximum 50 agents per user")));
    }
    if existing.is_some() {
        proof {
            reveal_strlit("agent id '");
            reveal_strlit("' already exists");
        }
        return Err(
            AppError::Conflict(text::concat3("agent id '", req.id.as_str(), "' already exists")),
        );
    }
    let resp = CreateAgentResponse {
        id: req.id.clone(),
        name: req.name.clone(),
        created_at: clock::rfc3339(now),
    };
    let m = agent::Model {
        id: req.id,
        user_id: String::from_str(user_id),
        name: req.name,
        reauth_required: false,
        avatar_url: req.avatar_url,
        bio: req.bio,
        status: agent::AgentStatus::Active,
        created_at: now,
        updated_at: now,
    };
    Ok((m, resp))
}

/// The agents of a user, in the order given, shown to their owner.
pub fn list_agents(user_id: &str, agents: &Vec<agent::Model>) -> (r: Vec<AgentResponse>)
    requires
        forall|i: int| 0 <= i < agents.len() ==> agent_times_valid(#[trigger] agents@[i]),
    ensures
        r@.len() == owned_by(agents@, user_id@).len(),
        forall|i: int|
            0 <= i < r@.len() ==> shows_agent(owned_by(agents@, user_id@)[i], #[trigger] r@[i]),
{
    broadcast use vstd::seq_lib::group_filter_ensures;
    let mut out: Vec<AgentResponse> = Vec::new();
    let mut i: usize = 0;
    while i < agents.len()
        invariant
            i <= agents.len(),
            forall|k: int| 0 <= k < agents.len() ==> agent_times_valid(#[trigger] agents@[k]),
            out@.len() == owned_by(agents@.take(i as int), user_id@).len(),
            forall|k: int|
                0 <= k < out@.len() ==> shows_agent(
                    owned_by(agents@.take(i as int), user_id@)[k],
                    #[trigger] out@[k],
                ),
        decreases agents.len() - i,
    {
        proof {
            assert(agents@.take(i + 1) =~= agents@.take(i as int).push(agents@[i as int]));
            agents@.take(i as int).lemma_filter_push(
                agents@[i as int],
                |a: agent::Model| a.user_id@ == user_id@,
            );
        }
        if text::text_eq(agents[i].user_id.as_str(), user_id) {
            let resp = to_agent_response(&agents[i]);
            out.push(resp);
        }
        i = i + 1;
    }
    proof {
        assert(agents@.take(agents.len() as int) =~= agents@);
    }
    out
}

/// Show one agent to its owner, who presents a session. An agent that
/// presents an access token instead is answered by `get_agent_by_token`.
pub fn get_agent(found: Option<agent::Model>, agent_id: &str, user_id: &str) -> (r: Result<
    AgentResponse,
    AppError,
>)
    requires
        found matches Some(a) ==> agent_times_valid(a),
    ensures
        r is Ok <==> (found matches Some(a) && a.user_id@ == user_id@),
        found is None ==> fails_not_found(r, agent_not_found_text(agent_id@)),
        found matches Some(a) && a.user_id@ != user_id@ ==> fails_forbidden(r, "not your agent"@),
        r matches Ok(resp) ==> found matches Some(a) && shows_agent(a, resp),
{
    let a = find_owned_agent(found, agent_id, user_id)?;
    Ok(to_agent_response(&a))
}

/// Show one agent to an agent that presents an access token: any stored
/// agent is shown; an id with no agent is not found.
pub fn get_agent_by_token(found: Option<agent::Model>, agent_id: &str) -> (r: Result<
    AgentResponse,
    AppError,
>)
    requires
        found matches Some(a) ==> agent_times_valid(a),
    ensures
        r is Ok <==> found is Some,
        found is None ==> fails_not_found(r, agent_not_found_text(agent_id@)),
        r matches Ok(resp) ==> found matches Some(a) && shows_agent(a, resp),
{
    match found {
        None => Err(agent_not_found(agent_id)),
        Some(a) => Ok(to_agent_response(&a)),
    }
}

/// The agent after an update: each field given replaces the old one, the
/// others stay, and the update time is `now`.
pub open spec fn updated_agent(old: agent::Model, req: UpdateAgentRequest, now: i64, new: agent::Model) -> bool {
    &&& new.id == old.id
    &&& new.user_id == old.user_id
    &&& new.name == (match req.name {
        Some(n) => n,
        None => old.name,
    })
    &&& new.bio == (match req.bio {
        Some(b) => Some(b),
        None => old.bio,
    })
    &&& new.avatar_url == (match req.avatar_url {
        Some(u) => Some(u),
        None => old.avatar_url,
    })
    &&& new.reauth_required == old.reauth_required
    &&& new.status == old.status
    &&& new.created_at == old.created_at
    &&& new.updated_at == now
}

/// Update an agent's profile for its owner: gives the row to save and the answer.
pub fn update_agent(
    found: Option<agent::Model>,
    agent_id: &str,
    user_id: &str,
    req: UpdateAgentRequest,
    now: i64,
) -> (r: Result<(agent::Model, AgentResponse), AppError>)
    requires
        valid_time(now),
        found matches Some(a) ==> valid_time(a.created_at),
    ensures
        r is Ok <==> (found matches Some(a) && a.user_id@ == user_id@),
        found is None ==> fails_not_found(r, agent_not_found_text(agent_id@)),
        found matches Some(a) && a.user_id@ != user_id@ ==> fails_forbidden(r, "not your agent"@),
        r matches Ok((m, resp)) ==> found matches Some(a) && updated_agent(a, req, now, m)
            && shows_agent(m, resp),
{
    let existing = find_owned_agent(found, agent_id, user_id)?;
    let mut m = existing;
    match req.name {
        Some(n) => {
            m.name = n;
        },
        None => {},
    }
    match req.bio {
        Some(b) => {
            m.bio = Some(b);
        },
        None => {},
    }
    match req.avatar_url {
        Some(u) => {
            m.avatar_url = Some(u);
        },
        None => {},
    }
    m.updated_at = now;
    let resp = to_agent_response(&m);
    Ok((m, resp))
}

/// A contact row involves the agent on either side.
pub open spec fn involves(c: contact::Model, agent_id: Seq<char>) -> bool {
    c.agent_id@ == agent_id || c.contact_id@ == agent_id
}

/// The contact rows that name the agent on either side, in their order.
pub open spec fn involving(contacts: Seq<contact::Model>, agent_id: Seq<char>) -> Seq<contact::Model> {
    contacts.filter(|c: contact::Model| involves(c, agent_id))
}

/// The key of a contact row.
pub open spec fn contact_key(c: contact::Model) -> (Seq<char>, Seq<char>) {
    (c.agent_id@, c.contact_id@)
}

/// What deleting an agent removes: the agent and every contact row naming it.
pub struct AgentDeletion {
    /// The agent to delete.
    pub agent_id: String,
    /// The (agent_id, contact_id) keys of the contact rows to delete.
    pub contacts: Vec<(String, String)>,
}

/// The keys of an agent deletion, as plain values.
pub open spec fn deletion_keys(d: AgentDeletion) -> Seq<(Seq<char>, Seq<char>)> {
    d.contacts@.map_values(|k: (String, String)| (k.0@, k.1@))
}

/// Delete an agent for its owner: `contacts` are the stored contact rows.
/// Every contact in which the agent appears, on either side, goes with it.
pub fn delete_agent(
    found: Option<agent::Model>,
    agent_id: &str,
    user_id: &str,
    contacts: &Vec<contact::Model>,
) -> (r: Result<AgentDeletion, AppError>)
    ensures
        r is Ok <==> (found matches Some(a) && a.user_id@ == user_id@),
        found is None ==> fails_not_found(r, agent_not_found_text(agent_id@)),
        found matches Some(a) && a.user_id@ != user_id@ ==> fails_forbidden(r, "not your agent"@),
        r matches Ok(d) ==> found matches Some(a) && d.agent_id@ == a.id@ && deletion_keys(d)
            == involving(contacts@, a.id@).map_values(|c: contact::Model| contact_key(c)),
{
    broadcast use vstd::seq_lib::group_filter_ensures;
    let a = find_owned_agent(found, agent_id, user_id)?;
    let ghost pred = |c: contact::Model| involves(c, a.id@);
    let mut keys: Vec<(String, String)> = Vec::new();
    let mut j: usize = 0;
    while j < contacts.len()
        invariant
            j <= contacts.len(),
            pred == (|c: contact::Model| involves(c, a.id@)),
            keys@.map_values(|k: (String, String)| (k.0@, k.1@)) == contacts@.take(j as int).filter(
                pred,
            ).map_values(|c: contact::Model| contact_key(c)),
        decreases contacts.len() - j,
    {
        let ghost before = keys@;
        proof {
            assert(contacts@.take(j + 1) =~= contacts@.take(j as int).push(contacts@[j as int]));
            contacts@.take(j as int).lemma_filter_push(contacts@[j as int], pred);
        }
        let c = &contacts[j];
        if text::text_eq(c.agent_id.as_str(), a.id.as_str()) || text::text_eq(
            c.contact_id.as_str(),
            a.id.as_str(),
        ) {
            keys.push((c.agent_id.clone(), c.contact_id.clone()));
            proof {
                assert(keys@ =~= before.push(keys@.last()));
                assert(keys@.map_values(|k: (String, String)| (k.0@, k.1@)) =~= before.map_values(
                    |k: (String, String)| (k.0@, k.1@),
                ).push((c.agent_id@, c.contact_id@)));
                assert(contacts@.take(j as int).filter(pred).push(contacts@[j as int]).map_values(
                    |c: contact::Model| contact_key(c),
                ) =~= contacts@.take(j as int).filter(pred).map_values(
                    |c: contact::Model| contact_key(c),
                ).push(contact_key(contacts@[j as int])));
            }
        }
        j = j + 1;
    }
    proof {
        assert(contacts@.take(contacts.len() as int) =~= contacts@);
    }
    Ok(AgentDeletion { agent_id: a.id, contacts: keys })
}

/// The contact rows left once the rows with the given keys are deleted.
pub open spec fn contacts_without(
    contacts: Seq<contact::Model>,
    keys: Seq<(Seq<char>, Seq<char>)>,
) -> Seq<contact::Model> {
    contacts.filter(kept_by(keys))
}

/// A contact row is kept when its key is not among the deleted ones.
pub open spec fn kept_by(keys: Seq<(Seq<char>, Seq<char>)>) -> spec_fn(contact::Model) -> bool {
    |c: contact::Model| !keys.contains(contact_key(c))
}

/// Once an agent is deleted, no contact row names it on either side.
pub proof fn deleted_agent_leaves_no_contacts(contacts: Seq<contact::Model>, d: AgentDeletion)
    requires
        deletion_keys(d) == involving(contacts, d.agent_id@).map_values(
            |c: contact::Model| contact_key(c),
        ),
    ensures
        forall|k: int|
            0 <= k < contacts_without(contacts, deletion_keys(d)).len() ==> !involves(
                #[trigger] contacts_without(contacts, deletion_keys(d))[k],
                d.agent_id@,
            ),
{
    broadcast use vstd::seq_lib::group_filter_ensures;
    let keys = deletion_keys(d);
    let rest = contacts_without(contacts, keys);
    let inv = involving(contacts, d.agent_id@);
    assert forall|k: int| 0 <= k < rest.len() implies !involves(#[trigger] rest[k], d.agent_id@) by {
        let c = rest[k];
        assert(rest.contains(c));
        contacts.lemma_filter_contains_rev(kept_by(keys), c);
        assert(!keys.contains(contact_key(c)));
        if involves(c, d.agent_id@) {
            assert(contacts.contains(c));
            assert(inv.contains(c));
            let m = choose|m: int| 0 <= m < inv.len() && inv[m] == c;
            assert(keys[m] == contact_key(c));
            assert(keys.contains(contact_key(c)));
        }
    }
}

} // verus!
