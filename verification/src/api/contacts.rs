//! Contacts: an agent's address book, with blocking.

use vstd::prelude::*;
use vstd::string::*;
use crate::api::agents::{agent_not_found, agent_not_found_text};
use crate::api::dto::{AddContactRequest, ContactResponse};
use crate::api::messages::{blocked_between, blocks, name_of, agent_name};
use crate::clock::{self, valid_time};
use crate::entity::{agent, contact};
use crate::error::{AppError, fails_conflict, fails_not_found, fails_validation};
use crate::text;

verus! {

/// The test that a contact row has the key (agent, contact).
pub open spec fn key_test(agent_id: Seq<char>, contact_id: Seq<char>) -> spec_fn(contact::Model) -> bool {
    |c: contact::Model| c.agent_id@ == agent_id && c.contact_id@ == contact_id
}

/// The contact row stored under the key, if any (the first).
pub open spec fn contact_row(
    contacts: Seq<contact::Model>,
    agent_id: Seq<char>,
    contact_id: Seq<char>,
) -> Option<contact::Model> {
    let f = contacts.filter(key_test(agent_id, contact_id));
    if f.len() > 0 {
        Some(f[0])
    } else {
        None
    }
}

/// Find the contact row stored under the key.
pub fn find_contact(contacts: &Vec<contact::Model>, agent_id: &str, contact_id: &str) -> (r: Option<
    contact::Model,
>)
    ensures
        r == contact_row(contacts@, agent_id@, contact_id@),
{
    broadcast use vstd::seq_lib::group_filter_ensures;
    let ghost p = key_test(agent_id@, contact_id@);
    let mut i: usize = 0;
    while i < contacts.len()
        invariant
            i <= contacts.len(),
            p == key_test(agent_id@, contact_id@),
            contacts@.take(i as int).filter(p).len() == 0,
        decreases contacts.len() - i,
    {
        proof {
            assert(contacts@.take(i + 1) =~= contacts@.take(i as int).push(contacts@[i as int]));
            contacts@.take(i as int).lemma_filter_push(contacts@[i as int], p);
        }
        let c = &contacts[i];
        if text::text_eq(c.agent_id.as_str(), agent_id) && text::text_eq(
            c.contact_id.as_str(),
            contact_id,
        ) {
            proof {
                let rest = contacts@.subrange(i + 1, contacts@.len() as int);
                assert(contacts@ =~= contacts@.take(i + 1) + rest);
                Seq::filter_distributes_over_add(contacts@.take(i + 1), rest, p);
                assert(contacts@.take(i + 1).filter(p) =~= seq![contacts@[i as int]]);
            }
            return Some(c.duplicate());
        }
        i = i + 1;
    }
    proof {
        assert(contacts@.take(contacts.len() as int) =~= contacts@);
    }
    None
}

/// `r` shows the contact `c` whose agent is named `name`.
pub open spec fn shows_contact(c: contact::Model, name: Seq<char>, r: ContactResponse) -> bool {
    &&& r.contact_id@ == c.contact_id@
    &&& r.alias == c.alias
    &&& r.agent_name@ == name
    &&& r.is_blocked == c.is_blocked
    &&& r.created_at@ == clock::spec_rfc3339(c.created_at)
}

/// Agent `me` adds a contact. `target` is the agent stored under the
/// requested id, if any; `contacts` the contact rows. Gives the row to insert
/// and the answer.
pub fn add_contact(
    me: &str,
    req: AddContactRequest,
    target: Option<&agent::Model>,
    contacts: &Vec<contact::Model>,
    now: i64,
) -> (r: Result<(contact::Model, ContactResponse), AppError>)
    requires
        valid_time(now),
    ensures
        me@ == req.contact_id@ ==> fails_validation(r, "cannot add self as contact"@),
        me@ != req.contact_id@ && target is None ==> fails_not_found(
            r,
            agent_not_found_text(req.contact_id@),
        ),
        me@ != req.contact_id@ && target is Some && contact_row(contacts@, me@, req.contact_id@)
            is Some ==> fails_conflict(r, "contact already exists"@),
        r is Ok <==> me@ != req.contact_id@ && target is Some && contact_row(
            contacts@,
            me@,
            req.contact_id@,
        ) is None,
        r matches Ok((c, resp)) ==> target matches Some(t) && c.agent_id@ == me@ && c.contact_id@
            == req.contact_id@ && c.alias == req.alias && !c.is_blocked && c.created_at == now
            && shows_contact(c, t.name@, resp),
{
    if text::text_eq(me, req.contact_id.as_str()) {
        return Err(AppError::Validation(String::from_str("cannot add self as contact")));
    }
    let t = match target {
        None => {
            return Err(agent_not_found(req.contact_id.as_str()));
        },
        Some(t) => t,
    };
    if find_contact(contacts, me, req.contact_id.as_str()).is_some() {
        return Err(AppError::Conflict(String::from_str("contact already exists")));
    }
    let row = contact::Model {
        agent_id: String::from_str(me),
        contact_id: req.contact_id,
        alias: req.alias,
        is_blocked: false,
        created_at: now,
    };
    let resp = ContactResponse {
        contact_id: row.contact_id.clone(),
        alias: row.alias.clone(),
        agent_name: t.name.clone(),
        is_blocked: false,
        created_at: clock::rfc3339(now),
    };
    Ok((row, resp))
}

/// The test that a contact row belongs to the agent's address book.
pub open spec fn owned_contact(agent_id: Seq<char>) -> spec_fn(contact::Model) -> bool {
    |c: contact::Model| c.agent_id@ == agent_id
}

/// The contacts of `me`, in order, each with the name of its agent (empty
/// when the agent is not among `agents`).
pub fn list_contacts(me: &str, contacts: &Vec<contact::Model>, agents: &Vec<agent::Model>) -> (r: Vec<
    ContactResponse,
>)
    requires
        forall|i: int| 0 <= i < contacts.len() ==> valid_time(#[trigger] contacts@[i].created_at),
    ensures
        r@.len() == contacts@.filter(owned_contact(me@)).len(),
        forall|k: int|
            0 <= k < r@.len() ==> shows_contact(
                contacts@.filter(owned_contact(me@))[k],
                name_of(agents@, contacts@.filter(owned_contact(me@))[k].contact_id@),
                #[trigger] r@[k],
            ),
{
    broadcast use vstd::seq_lib::group_filter_ensures;
    let ghost p = owned_contact(me@);
    let mut out: Vec<ContactResponse> = Vec::new();
    let mut i: usize = 0;
    while i < contacts.len()
        invariant
            i <= contacts.len(),
            p == owned_contact(me@),
            forall|k: int| 0 <= k < contacts.len() ==> valid_time(#[trigger] contacts@[k].created_at),
            out@.len() == contacts@.take(i as int).filter(p).len(),
            forall|k: int|
                0 <= k < out@.len() ==> shows_contact(
                    contacts@.take(i as int).filter(p)[k],
                    name_of(agents@, contacts@.take(i as int).filter(p)[k].contact_id@),
                    #[trigger] out@[k],
                ),
        decreases contacts.len() - i,
    {
        proof {
            assert(contacts@.take(i + 1) =~= contacts@.take(i as int).push(contacts@[i as int]));
            contacts@.take(i as int).lemma_filter_push(contacts@[i as int], p);
        }
        let c = &contacts[i];
        if text::text_eq(c.agent_id.as_str(), me) {
            let name = agent_name(agents, c.contact_id.as_str());
            out.push(
                ContactResponse {
                    contact_id: c.contact_id.clone(),
                    alias: c.alias.clone(),
                    agent_name: name,
                    is_blocked: c.is_blocked,
                    created_at: clock::rfc3339(c.created_at),
                },
            );
        }
        i = i + 1;
    }
    proof {
        assert(contacts@.take(contacts.len() as int) =~= contacts@);
    }
    out
}

/// Set the block flag of a contact of `me`. Gives the row to save, or none
/// when the flag already has the value.
fn set_blocked(me: &str, contact_id: &str, contacts: &Vec<contact::Model>, blocked: bool) -> (r: Result<
    Option<contact::Model>,
    AppError,
>)
    ensures
        contact_row(contacts@, me@, contact_id@) is None ==> fails_not_found(r, "contact not found"@),
        r is Ok <==> contact_row(contacts@, me@, contact_id@) is Some,
        r matches Ok(o) ==> contact_row(contacts@, me@, contact_id@) matches Some(c) && (
        c.is_blocked == blocked <==> o is None) && (o matches Some(u) ==> u == (contact::Model {
            is_blocked: blocked,
            ..c
        })),
{
    let c = match find_contact(contacts, me, contact_id) {
        None => {
            return Err(AppError::NotFound(String::from_str("contact not found")));
        },
        Some(c) => c,
    };
    if c.is_blocked == blocked {
        return Ok(None);
    }
    let mut u = c;
    u.is_blocked = blocked;
    Ok(Some(u))
}

/// Block a contact of `me`; blocking twice changes nothing.
pub fn block_contact(me: &str, contact_id: &str, contacts: &Vec<contact::Model>) -> (r: Result<
    Option<contact::Model>,
    AppError,
>)
    ensures
        contact_row(contacts@, me@, contact_id@) is None ==> fails_not_found(r, "contact not found"@),
        r is Ok <==> contact_row(contacts@, me@, contact_id@) is Some,
        r matches Ok(o) ==> contact_row(contacts@, me@, contact_id@) matches Some(c) && (c.is_blocked
            <==> o is None) && (o matches Some(u) ==> u == (contact::Model { is_blocked: true, ..c })),
{
    set_blocked(me, contact_id, contacts, true)
}

/// Unblock a contact of `me`; unblocking twice changes nothing.
pub fn unblock_contact(me: &str, contact_id: &str, contacts: &Vec<contact::Model>) -> (r: Result<
    Option<contact::Model>,
    AppError,
>)
    ensures
        contact_row(contacts@, me@, contact_id@) is None ==> fails_not_found(r, "contact not found"@),
        r is Ok <==> contact_row(contacts@, me@, contact_id@) is Some,
        r matches Ok(o) ==> contact_row(contacts@, me@, contact_id@) matches Some(c) && (!c.is_blocked
            <==> o is None) && (o matches Some(u) ==> u == (contact::Model { is_blocked: false, ..c })),
{
    set_blocked(me, contact_id, contacts, false)
}

/// Remove a contact of `me`. Gives the (agent, contact) key of the row to
/// delete; a contact that `me` does not have is not found.
pub fn remove_contact(me: &str, contact_id: &str, contacts: &Vec<contact::Model>) -> (r: Result<
    (String, String),
    AppError,
>)
    ensures
        contact_row(contacts@, me@, contact_id@) is None ==> fails_not_found(r, "contact not found"@),
        r is Ok <==> contact_row(contacts@, me@, contact_id@) is Some,
        r matches Ok(k) ==> k.0@ == me@ && k.1@ == contact_id@,
{
    match find_contact(contacts, me, contact_id) {
        None => Err(AppError::NotFound(String::from_str("contact not found"))),
        Some(c) => Ok((c.agent_id, c.contact_id)),
    }
}

/// Once `me` blocks a contact and the row is saved in place, direct
/// messages between the two are blocked both ways.
pub proof fn blocking_stops_messages_both_ways(
    contacts: Seq<contact::Model>,
    idx: int,
    me: Seq<char>,
    other: Seq<char>,
    saved: contact::Model,
)
    requires
        0 <= idx < contacts.len(),
        saved.agent_id@ == me,
        saved.contact_id@ == other,
        saved.is_blocked,
    ensures
        blocked_between(contacts.update(idx, saved), me, other),
        blocked_between(contacts.update(idx, saved), other, me),
{
    let after = contacts.update(idx, saved);
    assert(blocks(after[idx], me, other));
}

} // verus!
