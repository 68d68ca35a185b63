//! Channels: group conversations with admins and members.
//!
//! Each operation takes the rows it reads (the channel, its members, its
//! messages) and the current instant (UTC microseconds), and gives back the
//! rows to write and the answer.

use vstd::prelude::*;
use vstd::string::*;
use crate::api::agents::{agent_not_found, agent_not_found_text};
use crate::api::dto::{
    ChannelDetailResponse, ChannelMemberResponse, ChannelResponse, ChatHistoryParams,
    CreateChannelRequest, InviteMemberRequest, MessageResponse, SendChannelMessageRequest,
};
use crate::api::messages::{first_n, newest_first, shows_newest};
use crate::clock::{self, valid_time};
use crate::entity::{agent, channel, channel_member, message};
use crate::entity::channel_member::MemberRole;
use crate::error::{AppError, fails_conflict, fails_forbidden, fails_not_found, fails_validation};
use crate::ids::new_id;
use crate::text;

verus! {

// ── Membership ──

/// The test that a membership row is of the agent in the channel.
pub open spec fn membership_test(channel_id: Seq<char>, agent_id: Seq<char>) -> spec_fn(
    channel_member::Model,
) -> bool {
    |m: channel_member::Model| m.channel_id@ == channel_id && m.agent_id@ == agent_id
}

/// The membership of the agent in the channel among `members`, if any (the first).
pub open spec fn membership(
    members: Seq<channel_member::Model>,
    channel_id: Seq<char>,
    agent_id: Seq<char>,
) -> Option<channel_member::Model> {
    let f = members.filter(membership_test(channel_id, agent_id));
    if f.len() > 0 {
        Some(f[0])
    } else {
        None
    }
}

/// Find the membership of the agent in the channel.
pub fn find_membership(members: &Vec<channel_member::Model>, channel_id: &str, agent_id: &str) -> (r:
    Option<channel_member::Model>)
    ensures
        r == membership(members@, channel_id@, agent_id@),
{
    broadcast use vstd::seq_lib::group_filter_ensures;
    let ghost p = membership_test(channel_id@, agent_id@);
    let mut i: usize = 0;
    while i < members.len()
        invariant
            i <= members.len(),
            p == membership_test(channel_id@, agent_id@),
            members@.take(i as int).filter(p).len() == 0,
        decreases members.len() - i,
    {
        proof {
            assert(members@.take(i + 1) =~= members@.take(i as int).push(members@[i as int]));
            members@.take(i as int).lemma_filter_push(members@[i as int], p);
        }
        let m = &members[i];
        if text::text_eq(m.channel_id.as_str(), channel_id) && text::text_eq(
            m.agent_id.as_str(),
            agent_id,
        ) {
            proof {
                let rest = members@.subrange(i + 1, members@.len() as int);
                assert(members@ =~= members@.take(i + 1) + rest);
                Seq::filter_distributes_over_add(members@.take(i + 1), rest, p);
                assert(members@.take(i + 1).filter(p) =~= seq![members@[i as int]]);
            }
            return Some(m.duplicate());
        }
        i = i + 1;
    }
    proof {
        assert(members@.take(members.len() as int) =~= members@);
    }
    None
}

/// An agent added to the channel's members is found as a member afterwards.
pub proof fn added_member_is_found(members: Seq<channel_member::Model>, m: channel_member::Model)
    ensures
        membership(members.push(m), m.channel_id@, m.agent_id@) is Some,
{
    broadcast use vstd::seq_lib::group_filter_ensures;
    members.lemma_filter_push(m, membership_test(m.channel_id@, m.agent_id@));
}

// ── Responses ──

/// `r` shows the channel `c`.
pub open spec fn shows_channel(c: channel::Model, r: ChannelResponse) -> bool {
    &&& r.id@ == c.id@
    &&& r.name@ == c.name@
    &&& r.created_by@ == c.created_by@
    &&& r.is_closed == c.is_closed
    &&& r.created_at@ == clock::spec_rfc3339(c.created_at)
}

/// `r` shows the membership `m`.
pub open spec fn shows_member(m: channel_member::Model, r: ChannelMemberResponse) -> bool {
    &&& r.agent_id@ == m.agent_id@
    &&& r.role@ == m.role.text()
    &&& r.joined_at@ == clock::spec_rfc3339(m.joined_at)
}

// ── Create ──

/// A channel created: the channel row, the creator's admin membership, and the answer.
pub struct ChannelCreation {
    pub channel: channel::Model,
    pub admin: channel_member::Model,
    pub response: ChannelResponse,
}

/// Create a channel for agent `me`, who becomes its admin.
pub fn create_channel(me: &str, req: CreateChannelRequest, now: i64) -> (r: ChannelCreation)
    requires
        valid_time(now),
    ensures
        r.channel.id@.len() == 36,
        r.channel.name@ == req.name@,
        r.channel.created_by@ == me@,
        !r.channel.is_closed,
        r.channel.created_at == now,
        r.channel.updated_at == now,
        r.admin.channel_id@ == r.channel.id@,
        r.admin.agent_id@ == me@,
        r.admin.role == MemberRole::Admin,
        r.admin.joined_at == now,
        shows_channel(r.channel, r.response),
{
    let channel_id = new_id();
    let channel = channel::Model {
        id: channel_id.clone(),
        name: req.name,
        created_by: String::from_str(me),
        is_closed: false,
        created_at: now,
        updated_at: now,
    };
    let admin = channel_member::Model {
        channel_id,
        agent_id: String::from_str(me),
        role: MemberRole::Admin,
        joined_at: now,
    };
    let response = ChannelResponse {
        id: channel.id.clone(),
        name: channel.name.clone(),
        created_by: channel.created_by.clone(),
        is_closed: false,
        created_at: clock::rfc3339(now),
    };
    ChannelCreation { channel, admin, response }
}

/// The creator of a channel is found as an admin of it.
pub proof fn creator_is_admin(members: Seq<channel_member::Model>, c: ChannelCreation)
    requires
        c.admin.channel_id@ == c.channel.id@,
        c.admin.role == MemberRole::Admin,
        membership(members, c.channel.id@, c.admin.agent_id@) is None,
    ensures
        membership(members.push(c.admin), c.channel.id@, c.admin.agent_id@) == Some(c.admin),
{
    broadcast use vstd::seq_lib::group_filter_ensures;
    members.lemma_filter_push(c.admin, membership_test(c.channel.id@, c.admin.agent_id@));
    assert(members.filter(membership_test(c.channel.id@, c.admin.agent_id@)).len() == 0);
}

/// The membership found is a row of `members`, of the agent in the channel.
pub proof fn membership_is_a_row(members: Seq<channel_member::Model>, channel_id: Seq<char>, agent_id: Seq<char>)
    requires
        membership(members, channel_id, agent_id) is Some,
    ensures
        membership(members, channel_id, agent_id) matches Some(m) && m.channel_id@ == channel_id
            && m.agent_id@ == agent_id && members.contains(m),
{
    broadcast use vstd::seq_lib::group_filter_ensures;
    let f = members.filter(membership_test(channel_id, agent_id));
    assert(f.contains(f[0]));
    members.lemma_filter_contains_rev(membership_test(channel_id, agent_id), f[0]);
}

// ── List ──

/// The channel is one that the agent is a member of.
pub open spec fn member_of_channel(
    members: Seq<channel_member::Model>,
    agent_id: Seq<char>,
    c: channel::Model,
) -> bool {
    membership(members, c.id@, agent_id) is Some
}

/// The test of `member_of_channel`.
pub open spec fn mine_test(members: Seq<channel_member::Model>, agent_id: Seq<char>) -> spec_fn(
    channel::Model,
) -> bool {
    |c: channel::Model| member_of_channel(members, agent_id, c)
}

/// The channels that `me` is a member of, in the order of `channels`.
/// `memberships` are the membership rows.
pub fn list_channels(
    me: &str,
    memberships: &Vec<channel_member::Model>,
    channels: &Vec<channel::Model>,
) -> (r: Vec<ChannelResponse>)
    requires
        forall|i: int| 0 <= i < channels.len() ==> valid_time(#[trigger] channels@[i].created_at),
    ensures
        r@.len() == channels@.filter(mine_test(memberships@, me@)).len(),
        forall|k: int|
            0 <= k < r@.len() ==> shows_channel(
                channels@.filter(mine_test(memberships@, me@))[k],
                #[trigger] r@[k],
            ),
{
    broadcast use vstd::seq_lib::group_filter_ensures;
    let ghost p = mine_test(memberships@, me@);
    let mut out: Vec<ChannelResponse> = Vec::new();
    let mut i: usize = 0;
    while i < channels.len()
        invariant
            i <= channels.len(),
            p == mine_test(memberships@, me@),
            forall|k: int| 0 <= k < channels.len() ==> valid_time(#[trigger] channels@[k].created_at),
            out@.len() == channels@.take(i as int).filter(p).len(),
            forall|k: int|
                0 <= k < out@.len() ==> shows_channel(
                    channels@.take(i as int).filter(p)[k],
                    #[trigger] out@[k],
                ),
        decreases channels.len() - i,
    {
        proof {
            assert(channels@.take(i + 1) =~= channels@.take(i as int).push(channels@[i as int]));
            channels@.take(i as int).lemma_filter_push(channels@[i as int], p);
        }
        let c = &channels[i];
        if find_membership(memberships, c.id.as_str(), me).is_some() {
            out.push(
                ChannelResponse {
                    id: c.id.clone(),
                    name: c.name.clone(),
                    created_by: c.created_by.clone(),
                    is_closed: c.is_closed,
                    created_at: clock::rfc3339(c.created_at),
                },
            );
        }
        i = i + 1;
    }
    proof {
        assert(channels@.take(channels.len() as int) =~= channels@);
    }
    out
}

// ── Details ──

/// The test that a membership row is of the channel.
pub open spec fn in_channel(channel_id: Seq<char>) -> spec_fn(channel_member::Model) -> bool {
    |m: channel_member::Model| m.channel_id@ == channel_id
}

/// The members of the channel among `members`, shown in order.
fn member_responses(members: &Vec<channel_member::Model>, channel_id: &str) -> (r: Vec<
    ChannelMemberResponse,
>)
    requires
        forall|i: int| 0 <= i < members.len() ==> valid_time(#[trigger] members@[i].joined_at),
    ensures
        r@.len() == members@.filter(in_channel(channel_id@)).len(),
        forall|k: int|
            0 <= k < r@.len() ==> shows_member(
                members@.filter(in_channel(channel_id@))[k],
                #[trigger] r@[k],
            ),
{
    broadcast use vstd::seq_lib::group_filter_ensures;
    let ghost p = in_channel(channel_id@);
    let mut out: Vec<ChannelMemberResponse> = Vec::new();
    let mut i: usize = 0;
    while i < members.len()
        invariant
            i <= members.len(),
            p == in_channel(channel_id@),
            forall|k: int| 0 <= k < members.len() ==> valid_time(#[trigger] members@[k].joined_at),
            out@.len() == members@.take(i as int).filter(p).len(),
            forall|k: int|
                0 <= k < out@.len() ==> shows_member(
                    members@.take(i as int).filter(p)[k],
                    #[trigger] out@[k],
                ),
        decreases members.len() - i,
    {
        proof {
            assert(members@.take(i + 1) =~= members@.take(i as int).push(members@[i as int]));
            members@.take(i as int).lemma_filter_push(members@[i as int], p);
        }
        let m = &members[i];
        if text::text_eq(m.channel_id.as_str(), channel_id) {
            out.push(
                ChannelMemberResponse {
                    agent_id: m.agent_id.clone(),
                    role: m.role.as_string(),
                    joined_at: clock::rfc3339(m.joined_at),
                },
            );
        }
        i = i + 1;
    }
    proof {
        assert(members@.take(members.len() as int) =~= members@);
    }
    out
}

/// The channel `id` with its members, for agent `me`. `found` is the channel
/// stored under `id`, if any; `members` the membership rows.
pub fn get_channel(
    me: &str,
    id: &str,
    found: Option<&channel::Model>,
    members: &Vec<channel_member::Model>,
) -> (r: Result<ChannelDetailResponse, AppError>)
    requires
        found matches Some(c) ==> valid_time(c.created_at),
        forall|i: int| 0 <= i < members.len() ==> valid_time(#[trigger] members@[i].joined_at),
    ensures
        found is None ==> fails_not_found(r, "channel not found"@),
        found is Some && membership(members@, id@, me@) is None ==> fails_forbidden(
            r,
            "not a member of this channel"@,
        ),
        r is Ok <==> found is Some && membership(members@, id@, me@) is Some,
        r matches Ok(d) ==> found matches Some(c) && d.id@ == c.id@ && d.name@ == c.name@
            && d.created_by@ == c.created_by@ && d.is_closed == c.is_closed && d.created_at@
            == clock::spec_rfc3339(c.created_at) && d.members@.len() == members@.filter(
            in_channel(id@),
        ).len() && forall|k: int|
            0 <= k < d.members@.len() ==> shows_member(
                members@.filter(in_channel(id@))[k],
                #[trigger] d.members@[k],
            ),
{
    let c = match found {
        None => {
            return Err(AppError::NotFound(String::from_str("channel not found")));
        },
        Some(c) => c,
    };
    if find_membership(members, id, me).is_none() {
        return Err(AppError::Forbidden(String::from_str("not a member of this channel")));
    }
    proof {
        membership_is_a_row(members@, id@, me@);
    }
    Ok(ChannelDetailResponse {
        id: c.id.clone(),
        name: c.name.clone(),
        created_by: c.created_by.clone(),
        is_closed: c.is_closed,
        created_at: clock::rfc3339(c.created_at),
        members: member_responses(members, id),
    })
}

// ── Administration ──

/// Why an admin operation on channel `id` by `me` is refused before its own
/// checks, if it is: no channel, a closed one (when that matters), no
/// membership, or no admin role.
pub open spec fn admin_refusal<T>(
    found: Option<channel::Model>,
    members: Seq<channel_member::Model>,
    id: Seq<char>,
    me: Seq<char>,
    closed_matters: bool,
    not_admin: Seq<char>,
    r: Result<T, AppError>,
) -> Option<bool> {
    match found {
        None => Some(fails_not_found(r, "channel not found"@)),
        Some(c) => if closed_matters && c.is_closed {
            Some(fails_validation(r, "channel is closed"@))
        } else {
            match membership(members, id, me) {
                None => Some(fails_forbidden(r, "not a member of this channel"@)),
                Some(m) => if m.role != MemberRole::Admin {
                    Some(fails_forbidden(r, not_admin))
                } else {
                    None
                },
            }
        },
    }
}

/// Channel administration is an admin's: an operation on channel `id` by
/// `me` succeeds only when the channel is stored and the membership of `me`
/// in it (a row of `members`) has the admin role, whether or not a closed
/// channel matters to the operation; a closed channel, where it matters, is
/// refused.
pub proof fn channel_admin_is_admins_only<T>(
    found: Option<channel::Model>,
    members: Seq<channel_member::Model>,
    id: Seq<char>,
    me: Seq<char>,
    closed_matters: bool,
    not_admin: Seq<char>,
    r: Result<T, AppError>,
)
    requires
        r is Ok ==> admin_refusal(found, members, id, me, closed_matters, not_admin, r) is None,
    ensures
        r is Ok ==> found is Some && (membership(members, id, me) matches Some(m) && m.role
            == MemberRole::Admin && members.contains(m) && m.channel_id@ == id && m.agent_id@ == me),
        r is Ok && closed_matters ==> (found matches Some(c) && !c.is_closed),
{
    if r is Ok {
        membership_is_a_row(members, id, me);
    }
}

/// Check that `me` may administer channel `id`.
fn check_admin(
    found: Option<&channel::Model>,
    members: &Vec<channel_member::Model>,
    id: &str,
    me: &str,
    closed_matters: bool,
    not_admin: &str,
) -> (r: Result<(), AppError>)
    ensures
        ({
            let f = match found {
                Some(c) => Some(*c),
                None => None,
            };
            match admin_refusal(f, members@, id@, me@, closed_matters, not_admin@, r) {
                Some(ok) => ok,
                None => r is Ok,
            }
        }),
        r is Ok ==> found is Some && (membership(members@, id@, me@) matches Some(m) && m.role
            == MemberRole::Admin && members@.contains(m)),
{
    let c = match found {
        None => {
            return Err(AppError::NotFound(String::from_str("channel not found")));
        },
        Some(c) => c,
    };
    if closed_matters && c.is_closed {
        return Err(AppError::Validation(String::from_str("channel is closed")));
    }
    match find_membership(members, id, me) {
        None => Err(AppError::Forbidden(String::from_str("not a member of this channel"))),
        Some(m) => {
            if m.role != MemberRole::Admin {
                Err(AppError::Forbidden(String::from_str(not_admin)))
            } else {
                proof {
                    membership_is_a_row(members@, id@, me@);
                }
                Ok(())
            }
        },
    }
}

/// The optional channel as a plain value.
pub open spec fn opt_channel(found: Option<&channel::Model>) -> Option<channel::Model> {
    match found {
        Some(c) => Some(*c),
        None => None,
    }
}

/// An admin of channel `id` invites an agent. `target` is the agent stored
/// under the requested id, if any. Gives the membership row to insert.
pub fn invite_member(
    me: &str,
    id: &str,
    found: Option<&channel::Model>,
    members: &Vec<channel_member::Model>,
    req: &InviteMemberRequest,
    target: Option<&agent::Model>,
    now: i64,
) -> (r: Result<channel_member::Model, AppError>)
    ensures
        admin_refusal(opt_channel(found), members@, id@, me@, true, "only admins can invite members"@, r)
            matches Some(ok) ==> ok,
        admin_refusal(opt_channel(found), members@, id@, me@, true, "only admins can invite members"@, r)
            is None ==> {
            &&& target is None ==> fails_not_found(r, agent_not_found_text(req.agent_id@))
            &&& target is Some && membership(members@, id@, req.agent_id@) is Some ==> fails_conflict(
                r,
                "agent is already a member"@,
            )
            &&& r is Ok <==> target is Some && membership(members@, id@, req.agent_id@) is None
        },
        r is Ok ==> admin_refusal(
            opt_channel(found),
            members@,
            id@,
            me@,
            true,
            "only admins can invite members"@,
            r,
        ) is None,
        r matches Ok(m) ==> m.channel_id@ == id@ && m.agent_id@ == req.agent_id@ && m.role
            == MemberRole::Member && m.joined_at == now,
        r is Ok ==> (membership(members@, id@, me@) matches Some(m) && m.role == MemberRole::Admin
            && members@.contains(m)),
{
    proof {
        reveal_strlit("only admins can invite members");
    }
    check_admin(found, members, id, me, true, "only admins can invite members")?;
    if target.is_none() {
        return Err(agent_not_found(req.agent_id.as_str()));
    }
    if find_membership(members, id, req.agent_id.as_str()).is_some() {
        return Err(AppError::Conflict(String::from_str("agent is already a member")));
    }
    Ok(channel_member::Model {
        channel_id: String::from_str(id),
        agent_id: req.agent_id.clone(),
        role: MemberRole::Member,
        joined_at: now,
    })
}

/// An admin of channel `id` removes a member. Gives the (channel, agent) key
/// of the membership row to delete.
pub fn remove_member(
    me: &str,
    id: &str,
    target_agent_id: &str,
    found: Option<&channel::Model>,
    members: &Vec<channel_member::Model>,
) -> (r: Result<(String, String), AppError>)
    ensures
        admin_refusal(opt_channel(found), members@, id@, me@, true, "only admins can remove members"@, r)
            matches Some(ok) ==> ok,
        admin_refusal(opt_channel(found), members@, id@, me@, true, "only admins can remove members"@, r)
            is None ==> {
            &&& target_agent_id@ == me@ ==> fails_validation(r, "admin cannot remove self"@)
            &&& target_agent_id@ != me@ && membership(members@, id@, target_agent_id@) is None
                ==> fails_not_found(r, "member not found"@)
            &&& r is Ok <==> target_agent_id@ != me@ && membership(members@, id@, target_agent_id@)
                is Some
        },
        r is Ok ==> admin_refusal(
            opt_channel(found),
            members@,
            id@,
            me@,
            true,
            "only admins can remove members"@,
            r,
        ) is None,
        r matches Ok(k) ==> k.0@ == id@ && k.1@ == target_agent_id@,
        r is Ok ==> (membership(members@, id@, me@) matches Some(m) && m.role == MemberRole::Admin
            && members@.contains(m)),
{
    proof {
        reveal_strlit("only admins can remove members");
    }
    check_admin(found, members, id, me, true, "only admins can remove members")?;
    if text::text_eq(target_agent_id, me) {
        return Err(AppError::Validation(String::from_str("admin cannot remove self")));
    }
    if find_membership(members, id, target_agent_id).is_none() {
        return Err(AppError::NotFound(String::from_str("member not found")));
    }
    Ok((String::from_str(id), String::from_str(target_agent_id)))
}

/// An admin of channel `id` closes it. Gives the channel row to save.
pub fn close_channel(
    me: &str,
    id: &str,
    found: Option<&channel::Model>,
    members: &Vec<channel_member::Model>,
    now: i64,
) -> (r: Result<channel::Model, AppError>)
    ensures
        admin_refusal(opt_channel(found), members@, id@, me@, false, "only admins can close channels"@, r)
            matches Some(ok) ==> ok,
        r is Ok <==> admin_refusal(
            opt_channel(found),
            members@,
            id@,
            me@,
            false,
            "only admins can close channels"@,
            r,
        ) is None,
        r matches Ok(c) ==> found matches Some(f) && c == (channel::Model {
            is_closed: true,
            updated_at: now,
            ..*f
        }),
        r is Ok ==> (membership(members@, id@, me@) matches Some(m) && m.role == MemberRole::Admin
            && members@.contains(m)),
{
    proof {
        reveal_strlit("only admins can close channels");
    }
    check_admin(found, members, id, me, false, "only admins can close channels")?;
    let mut c = match found {
        Some(f) => f.duplicate(),
        None => {
            return Err(AppError::NotFound(String::from_str("channel not found")));
        },
    };
    c.is_closed = true;
    c.updated_at = now;
    Ok(c)
}

// ── Messages ──

/// Why a member operation on channel `id` by `me` is refused, if it is.
pub open spec fn member_refusal<T>(
    found: Option<channel::Model>,
    members: Seq<channel_member::Model>,
    id: Seq<char>,
    me: Seq<char>,
    closed_matters: bool,
    r: Result<T, AppError>,
) -> Option<bool> {
    match found {
        None => Some(fails_not_found(r, "channel not found"@)),
        Some(c) => if closed_matters && c.is_closed {
            Some(fails_validation(r, "channel is closed"@))
        } else if membership(members, id, me) is None {
            Some(fails_forbidden(r, "not a member of this channel"@))
        } else {
            None
        },
    }
}

/// Channel messages are for members: sending to or listing channel `id` by
/// `me` succeeds only when the channel is stored and `me` has a membership
/// row in it, whether or not a closed channel matters to the operation; a
/// closed channel, where it matters, is refused.
pub proof fn channel_messages_are_members_only<T>(
    found: Option<channel::Model>,
    members: Seq<channel_member::Model>,
    id: Seq<char>,
    me: Seq<char>,
    closed_matters: bool,
    r: Result<T, AppError>,
)
    requires
        r is Ok ==> member_refusal(found, members, id, me, closed_matters, r) is None,
    ensures
        r is Ok ==> found is Some && exists|k: int|
            0 <= k < members.len() && (#[trigger] members[k]).channel_id@ == id && members[k].agent_id@
                == me,
        r is Ok && closed_matters ==> (found matches Some(c) && !c.is_closed),
{
    if r is Ok {
        membership_is_a_row(members, id, me);
    }
}

/// A channel message sent: the row to insert, the answer, and the ids of the
/// channel's members (to whom the answer is pushed, the sender excepted).
pub struct ChannelPost {
    pub message: message::Model,
    pub response: MessageResponse,
    pub member_ids: Vec<String>,
}

/// The agent ids of the channel's members, in order.
pub open spec fn member_ids_of(members: Seq<channel_member::Model>, id: Seq<char>) -> Seq<Seq<char>> {
    members.filter(in_channel(id)).map_values(|m: channel_member::Model| m.agent_id@)
}

/// A member of channel `id` sends a message to it. The answer names the
/// requested message type, `text` when none is given; the row is stored as text.
pub fn send_channel_message(
    me: &str,
    id: &str,
    found: Option<&channel::Model>,
    members: &Vec<channel_member::Model>,
    req: SendChannelMessageRequest,
    now: i64,
) -> (r: Result<ChannelPost, AppError>)
    requires
        valid_time(now),
    ensures
        member_refusal(opt_channel(found), members@, id@, me@, true, r) matches Some(ok) ==> ok,
        r is Ok <==> member_refusal(opt_channel(found), members@, id@, me@, true, r) is None,
        r matches Ok(p) ==> p.message.well_addressed(),
        r is Ok ==> exists|k: int|
            0 <= k < members@.len() && (#[trigger] members@[k]).channel_id@ == id@ && members@[k].agent_id@
                == me@,
        found matches Some(c) && c.is_closed ==> fails_validation(r, "channel is closed"@),
        r matches Ok(p) ==> {
            &&& p.message.id@.len() == 36
            &&& p.message.from_agent@ == me@
            &&& p.message.to_agent is None
            &&& text::opt_text(p.message.channel_id) == Some(id@)
            &&& p.message.content@ == req.content@
            &&& p.message.msg_type == message::MsgType::Text
            &&& p.message.created_at == now
            &&& p.response.id@ == p.message.id@
            &&& p.response.from_agent@ == me@
            &&& p.response.to_agent is None
            &&& text::opt_text(p.response.channel_id) == Some(id@)
            &&& p.response.content@ == req.content@
            &&& p.response.msg_type@ == (match req.msg_type {
                Some(t) => t@,
                None => "text"@,
            })
            &&& p.response.created_at@ == clock::spec_rfc3339(now)
            &&& p.member_ids@.map_values(|s: String| s@) == member_ids_of(members@, id@)
        },
{
    broadcast use vstd::seq_lib::group_filter_ensures;
    let c = match found {
        None => {
            return Err(AppError::NotFound(String::from_str("channel not found")));
        },
        Some(c) => c,
    };
    if c.is_closed {
        return Err(AppError::Validation(String::from_str("channel is closed")));
    }
    if find_membership(members, id, me).is_none() {
        return Err(AppError::Forbidden(String::from_str("not a member of this channel")));
    }
    proof {
        membership_is_a_row(members@, id@, me@);
    }
    let msg_type = match req.msg_type {
        Some(t) => t,
        None => String::from_str("text"),
    };
    let message = message::Model {
        id: new_id(),
        from_agent: String::from_str(me),
        to_agent: None,
        channel_id: Some(String::from_str(id)),
        content: req.content,
        msg_type: message::MsgType::Text,
        created_at: now,
    };
    let response = MessageResponse {
        id: message.id.clone(),
        from_agent: String::from_str(me),
        to_agent: None,
        channel_id: Some(String::from_str(id)),
        content: message.content.clone(),
        msg_type,
        created_at: clock::rfc3339(now),
    };
    let ghost p = in_channel(id@);
    let mut ids: Vec<String> = Vec::new();
    let mut i: usize = 0;
    while i < members.len()
        invariant
            i <= members.len(),
            p == in_channel(id@),
            ids@.map_values(|s: String| s@) == members@.take(i as int).filter(p).map_values(
                |m: channel_member::Model| m.agent_id@,
            ),
        decreases members.len() - i,
    {
        proof {
            assert(members@.take(i + 1) =~= members@.take(i as int).push(members@[i as int]));
            members@.take(i as int).lemma_filter_push(members@[i as int], p);
        }
        let ghost before = ids@;
        if text::text_eq(members[i].channel_id.as_str(), id) {
            ids.push(members[i].agent_id.clone());
            proof {
                assert(ids@.map_values(|s: String| s@) =~= before.map_values(|s: String| s@).push(
                    members@[i as int].agent_id@,
                ));
                assert(members@.take(i as int).filter(p).push(members@[i as int]).map_values(
                    |m: channel_member::Model| m.agent_id@,
                ) =~= members@.take(i as int).filter(p).map_values(
                    |m: channel_member::Model| m.agent_id@,
                ).push(members@[i as int].agent_id@));
            }
        }
        i = i + 1;
    }
    proof {
        assert(members@.take(members.len() as int) =~= members@);
        reveal_strlit("text");
    }
    Ok(ChannelPost { message, response, member_ids: ids })
}

/// The page size of a channel history: the requested size, 50 when none, at most 100.
pub open spec fn channel_limit(limit: Option<u32>) -> nat {
    match limit {
        Some(l) => if l < 100 {
            l as nat
        } else {
            100
        },
        None => 50,
    }
}

/// The messages of the channel, older than `before` when given.
pub open spec fn channel_page_test(id: Seq<char>, before: Option<i64>) -> spec_fn(message::Model) -> bool {
    |m: message::Model|
        text::opt_text(m.channel_id) == Some(id) && match before {
            Some(b) => m.created_at < b,
            None => true,
        }
}

/// A member lists the messages of channel `id`, newest first. `msgs` are the
/// stored messages; a `before` cursor is an RFC 3339 instant.
pub fn list_channel_messages(
    me: &str,
    id: &str,
    found: Option<&channel::Model>,
    members: &Vec<channel_member::Model>,
    params: &ChatHistoryParams,
    msgs: &Vec<message::Model>,
) -> (r: Result<Vec<MessageResponse>, AppError>)
    requires
        forall|i: int| 0 <= i < msgs.len() ==> valid_time(#[trigger] msgs@[i].created_at),
    ensures
        member_refusal(opt_channel(found), members@, id@, me@, false, r) matches Some(ok) ==> ok,
        member_refusal(opt_channel(found), members@, id@, me@, false, r) is None ==> {
            &&& (params.before matches Some(b) && clock::spec_parse_rfc3339(b@) is None)
                ==> fails_validation(r, "invalid 'before' timestamp"@)
            &&& r is Ok <==> (params.before matches Some(b) ==> clock::spec_parse_rfc3339(b@) is Some)
            &&& r matches Ok(v) ==> shows_newest(
                v@,
                msgs@.filter(
                    channel_page_test(
                        id@,
                        match params.before {
                            Some(b) => clock::spec_parse_rfc3339(b@),
                            None => None,
                        },
                    ),
                ),
                channel_limit(params.limit),
            )
        },
        r is Ok ==> member_refusal(opt_channel(found), members@, id@, me@, false, r) is None,
        r is Ok ==> exists|k: int|
            0 <= k < members@.len() && (#[trigger] members@[k]).channel_id@ == id@ && members@[k].agent_id@
                == me@,
{
    broadcast use vstd::seq_lib::group_filter_ensures;
    if found.is_none() {
        return Err(AppError::NotFound(String::from_str("channel not found")));
    }
    if find_membership(members, id, me).is_none() {
        return Err(AppError::Forbidden(String::from_str("not a member of this channel")));
    }
    proof {
        membership_is_a_row(members@, id@, me@);
    }
    let limit: usize = match params.limit {
        Some(l) => if l < 100 {
            l as usize
        } else {
            100
        },
        None => 50,
    };
    let before: Option<i64> = match &params.before {
        Some(b) => match clock::parse_rfc3339(b.as_str()) {
            Some(t) => Some(t),
            None => {
                return Err(AppError::Validation(String::from_str("invalid 'before' timestamp")));
            },
        },
        None => None,
    };
    let ghost p = channel_page_test(id@, before);
    let mut sel: Vec<message::Model> = Vec::new();
    let mut i: usize = 0;
    while i < msgs.len()
        invariant
            i <= msgs.len(),
            p == channel_page_test(id@, before),
            forall|k: int| 0 <= k < msgs.len() ==> valid_time(#[trigger] msgs@[k].created_at),
            sel@ == msgs@.take(i as int).filter(p),
        decreases msgs.len() - i,
    {
        proof {
            assert(msgs@.take(i + 1) =~= msgs@.take(i as int).push(msgs@[i as int]));
            msgs@.take(i as int).lemma_filter_push(msgs@[i as int], p);
        }
        let m = &msgs[i];
        let in_ch = match &m.channel_id {
            Some(c) => text::text_eq(c.as_str(), id),
            None => false,
        };
        let older = match before {
            Some(b) => m.created_at < b,
            None => true,
        };
        if in_ch && older {
            sel.push(m.duplicate());
        }
        i = i + 1;
    }
    proof {
        assert(msgs@.take(msgs.len() as int) =~= msgs@);
        assert forall|k: int| 0 <= k < sel@.len() implies valid_time(#[trigger] sel@[k].created_at) by {
            assert(sel@.contains(sel@[k]));
            msgs@.lemma_filter_contains_rev(p, sel@[k]);
        }
    }
    Ok(crate::api::messages::newest_responses(sel, limit))
}

} // verus!
