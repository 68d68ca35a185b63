//! Direct messages: sending, unread summaries, read markers, history and search.
//!
//! Each operation takes the rows it reads (messages, read markers, contacts,
//! agents) and the current instant (UTC microseconds), and gives back the rows
//! to write and the answer.

use vstd::prelude::*;
use vstd::string::*;
use crate::api::agents::{agent_not_found, agent_not_found_text};
use crate::api::dto::{InboxSummaryEntry, MessageResponse};
use crate::clock::{self, valid_time};
use crate::entity::{agent, contact, message, message_read};
use crate::error::{AppError, fails_forbidden, fails_not_found, fails_validation};
use crate::text;

verus! {

// ── Blocks ──

/// A contact row by which `a` blocks `b`.
pub open spec fn blocks(c: contact::Model, a: Seq<char>, b: Seq<char>) -> bool {
    c.agent_id@ == a && c.contact_id@ == b && c.is_blocked
}

/// Either agent has blocked the other.
pub open spec fn blocked_between(contacts: Seq<contact::Model>, a: Seq<char>, b: Seq<char>) -> bool {
    exists|i: int|
        0 <= i < contacts.len() && (blocks(#[trigger] contacts[i], a, b) || blocks(contacts[i], b, a))
}

/// Check if a block relationship exists between two agents (either direction).
/// Returns true if either agent has blocked the other.
pub fn check_blocked(contacts: &Vec<contact::Model>, a: &str, b: &str) -> (r: bool)
    ensures
        r == blocked_between(contacts@, a@, b@),
{
    let mut i: usize = 0;
    while i < contacts.len()
        invariant
            i <= contacts.len(),
            forall|j: int|
                0 <= j < i ==> !blocks(#[trigger] contacts@[j], a@, b@) && !blocks(
                    contacts@[j],
                    b@,
                    a@,
                ),
        decreases contacts.len() - i,
    {
        let c = &contacts[i];
        if c.is_blocked {
            let ab = text::text_eq(c.agent_id.as_str(), a) && text::text_eq(c.contact_id.as_str(), b);
            let ba = text::text_eq(c.agent_id.as_str(), b) && text::text_eq(c.contact_id.as_str(), a);
            if ab || ba {
                assert(blocks(contacts@[i as int], a@, b@) || blocks(contacts@[i as int], b@, a@));
                return true;
            }
        }
        i = i + 1;
    }
    false
}

/// A block stops messages both ways: whether two agents are blocked does
/// not depend on which of them sends.
pub proof fn block_is_symmetric(contacts: Seq<contact::Model>, a: Seq<char>, b: Seq<char>)
    ensures
        blocked_between(contacts, a, b) == blocked_between(contacts, b, a),
{
}

// ── Responses ──

/// `r` shows the message `m`.
pub open spec fn shows_message(m: message::Model, r: MessageResponse) -> bool {
    &&& r.id@ == m.id@
    &&& r.from_agent@ == m.from_agent@
    &&& r.to_agent == m.to_agent
    &&& r.channel_id == m.channel_id
    &&& r.content@ == m.content@
    &&& r.msg_type@ == m.msg_type.text()
    &&& r.created_at@ == clock::spec_rfc3339(m.created_at)
}

/// Convert a message row to the response shown to agents.
pub fn to_response(m: &message::Model) -> (r: MessageResponse)
    requires
        valid_time(m.created_at),
    ensures
        shows_message(*m, r),
{
    MessageResponse {
        id: m.id.clone(),
        from_agent: m.from_agent.clone(),
        to_agent: m.to_agent.clone(),
        channel_id: m.channel_id.clone(),
        content: m.content.clone(),
        msg_type: m.msg_type.as_string(),
        created_at: clock::rfc3339(m.created_at),
    }
}

/// Show messages in their order.
pub fn to_responses(ms: &Vec<message::Model>) -> (r: Vec<MessageResponse>)
    requires
        forall|i: int| 0 <= i < ms.len() ==> valid_time(#[trigger] ms@[i].created_at),
    ensures
        r@.len() == ms@.len(),
        forall|i: int| 0 <= i < ms@.len() ==> shows_message(ms@[i], #[trigger] r@[i]),
{
    let mut out: Vec<MessageResponse> = Vec::new();
    let mut i: usize = 0;
    while i < ms.len()
        invariant
            i <= ms.len(),
            forall|k: int| 0 <= k < ms.len() ==> valid_time(#[trigger] ms@[k].created_at),
            out@.len() == i,
            forall|k: int| 0 <= k < i ==> shows_message(ms@[k], #[trigger] out@[k]),
        decreases ms.len() - i,
    {
        out.push(to_response(&ms[i]));
        i = i + 1;
    }
    out
}

// ── Read markers ──

/// The agent has a read marker for the message.
pub open spec fn is_read(reads: Seq<message_read::Model>, me: Seq<char>, id: Seq<char>) -> bool {
    exists|i: int| 0 <= i < reads.len() && (#[trigger] reads[i]).agent_id@ == me && reads[i].message_id@ == id
}

/// Whether the agent has a read marker for the message.
pub fn has_read(reads: &Vec<message_read::Model>, me: &str, id: &str) -> (r: bool)
    ensures
        r == is_read(reads@, me@, id@),
{
    let mut i: usize = 0;
    while i < reads.len()
        invariant
            i <= reads.len(),
            forall|j: int|
                0 <= j < i ==> !((#[trigger] reads@[j]).agent_id@ == me@ && reads@[j].message_id@
                    == id@),
        decreases reads.len() - i,
    {
        if text::text_eq(reads[i].agent_id.as_str(), me) && text::text_eq(
            reads[i].message_id.as_str(),
            id,
        ) {
            return true;
        }
        i = i + 1;
    }
    false
}

/// A direct message to `me` that `me` has not read.
pub open spec fn unread_by(m: message::Model, reads: Seq<message_read::Model>, me: Seq<char>) -> bool {
    text::opt_text(m.to_agent) == Some(me) && !is_read(reads, me, m.id@)
}

/// Whether the message is a direct message to `me` that `me` has not read.
fn is_unread(m: &message::Model, reads: &Vec<message_read::Model>, me: &str) -> (r: bool)
    ensures
        r == unread_by(*m, reads@, me@),
{
    match &m.to_agent {
        Some(to) => text::text_eq(to.as_str(), me) && !has_read(reads, me, m.id.as_str()),
        None => false,
    }
}

/// The read marker of `me` for the message, set at `now`.
pub open spec fn marks(r: message_read::Model, me: Seq<char>, m: message::Model, now: i64) -> bool {
    r.agent_id@ == me && r.message_id@ == m.id@ && r.read_at == now
}

/// The test that a message is unread by `me` and comes from `from`.
pub open spec fn unread_from(
    reads: Seq<message_read::Model>,
    me: Seq<char>,
    from: Seq<char>,
) -> spec_fn(message::Model) -> bool {
    |m: message::Model| unread_by(m, reads, me) && m.from_agent@ == from
}

/// The test that a message is unread by `me`.
pub open spec fn unread_test(reads: Seq<message_read::Model>, me: Seq<char>) -> spec_fn(
    message::Model,
) -> bool {
    |m: message::Model| unread_by(m, reads, me)
}

/// The read markers for every message of `msgs` that passes `p`, in order.
fn markers_for(
    msgs: &Vec<message::Model>,
    reads: &Vec<message_read::Model>,
    me: &str,
    from: Option<&str>,
    now: i64,
) -> (r: Vec<message_read::Model>)
    ensures
        ({
            let sel = match from {
                Some(f) => msgs@.filter(unread_from(reads@, me@, f@)),
                None => msgs@.filter(unread_test(reads@, me@)),
            };
            &&& r@.len() == sel.len()
            &&& forall|k: int| 0 <= k < r@.len() ==> marks(#[trigger] r@[k], me@, sel[k], now)
        }),
{
    broadcast use vstd::seq_lib::group_filter_ensures;
    let ghost pred = match from {
        Some(f) => unread_from(reads@, me@, f@),
        None => unread_test(reads@, me@),
    };
    let mut out: Vec<message_read::Model> = Vec::new();
    let mut i: usize = 0;
    while i < msgs.len()
        invariant
            i <= msgs.len(),
            pred == (match from {
                Some(f) => unread_from(reads@, me@, f@),
                None => unread_test(reads@, me@),
            }),
            out@.len() == msgs@.take(i as int).filter(pred).len(),
            forall|k: int|
                0 <= k < out@.len() ==> marks(
                    #[trigger] out@[k],
                    me@,
                    msgs@.take(i as int).filter(pred)[k],
                    now,
                ),
        decreases msgs.len() - i,
    {
        proof {
            assert(msgs@.take(i + 1) =~= msgs@.take(i as int).push(msgs@[i as int]));
            msgs@.take(i as int).lemma_filter_push(msgs@[i as int], pred);
        }
        let m = &msgs[i];
        let selected = is_unread(m, reads, me) && match from {
            Some(f) => text::text_eq(m.from_agent.as_str(), f),
            None => true,
        };
        if selected {
            out.push(
                message_read::Model {
                    agent_id: String::from_str(me),
                    message_id: m.id.clone(),
                    read_at: now,
                },
            );
        }
        i = i + 1;
    }
    proof {
        assert(msgs@.take(msgs.len() as int) =~= msgs@);
    }
    out
}

/// Mark all unread messages from `from_agent` to `me` as read: the read
/// markers to insert, one for each such message of `msgs`, in order.
pub fn mark_read_from(
    msgs: &Vec<message::Model>,
    reads: &Vec<message_read::Model>,
    me: &str,
    from_agent: &str,
    now: i64,
) -> (r: Vec<message_read::Model>)
    ensures
        r@.len() == msgs@.filter(unread_from(reads@, me@, from_agent@)).len(),
        forall|k: int|
            0 <= k < r@.len() ==> marks(
                #[trigger] r@[k],
                me@,
                msgs@.filter(unread_from(reads@, me@, from_agent@))[k],
                now,
            ),
{
    markers_for(msgs, reads, me, Some(from_agent), now)
}

/// Mark all unread messages to `me` as read: the read markers to insert, one
/// for each such message of `msgs`, in order.
pub fn mark_all_read(
    msgs: &Vec<message::Model>,
    reads: &Vec<message_read::Model>,
    me: &str,
    now: i64,
) -> (r: Vec<message_read::Model>)
    ensures
        r@.len() == msgs@.filter(unread_test(reads@, me@)).len(),
        forall|k: int|
            0 <= k < r@.len() ==> marks(
                #[trigger] r@[k],
                me@,
                msgs@.filter(unread_test(reads@, me@))[k],
                now,
            ),
{
    markers_for(msgs, reads, me, None, now)
}

/// Once the markers of `mark_read_from` are added, no message from that
/// sender is unread.
pub proof fn history_clears_unread_from(
    msgs: Seq<message::Model>,
    reads: Seq<message_read::Model>,
    me: Seq<char>,
    from_agent: Seq<char>,
    added: Seq<message_read::Model>,
    now: i64,
)
    requires
        added.len() == msgs.filter(unread_from(reads, me, from_agent)).len(),
        forall|k: int|
            0 <= k < added.len() ==> marks(
                #[trigger] added[k],
                me,
                msgs.filter(unread_from(reads, me, from_agent))[k],
                now,
            ),
    ensures
        forall|i: int|
            0 <= i < msgs.len() ==> !unread_from(reads + added, me, from_agent)(#[trigger] msgs[i]),
{
    broadcast use vstd::seq_lib::group_filter_ensures;
    let sel = msgs.filter(unread_from(reads, me, from_agent));
    assert forall|i: int| 0 <= i < msgs.len() implies !unread_from(reads + added, me, from_agent)(
        #[trigger] msgs[i],
    ) by {
        let m = msgs[i];
        if unread_from(reads, me, from_agent)(m) {
            assert(sel.contains(m));
            let k = choose|k: int| 0 <= k < sel.len() && sel[k] == m;
            assert(marks(added[k], me, m, now));
            assert((reads + added)[reads.len() + k] == added[k]);
            assert(is_read(reads + added, me, m.id@));
        } else if m.from_agent@ == from_agent && text::opt_text(m.to_agent) == Some(me) {
            let j = choose|j: int|
                0 <= j < reads.len() && (#[trigger] reads[j]).agent_id@ == me && reads[j].message_id@
                    == m.id@;
            assert((reads + added)[j] == reads[j]);
        }
    }
}

/// How many elements of `s` pass `p`.
pub open spec fn count_where<A>(s: Seq<A>, p: spec_fn(A) -> bool) -> nat
    decreases s.len(),
{
    if s.len() == 0 {
        0
    } else {
        count_where(s.drop_last(), p) + if p(s.last()) {
            1nat
        } else {
            0nat
        }
    }
}

proof fn count_where_add<A>(a: Seq<A>, b: Seq<A>, p: spec_fn(A) -> bool)
    ensures
        count_where(a + b, p) == count_where(a, p) + count_where(b, p),
    decreases b.len(),
{
    if b.len() == 0 {
        assert(a + b =~= a);
    } else {
        assert((a + b).drop_last() =~= a + b.drop_last());
        assert((a + b).last() == b.last());
        count_where_add(a, b.drop_last(), p);
    }
}

proof fn count_where_filter<A>(s: Seq<A>, p: spec_fn(A) -> bool, q: spec_fn(A) -> bool, pq: spec_fn(A) -> bool)
    requires
        forall|x: A| #[trigger] pq(x) == (p(x) && q(x)),
    ensures
        count_where(s.filter(p), q) == count_where(s, pq),
    decreases s.len(),
{
    if s.len() > 0 {
        let d = s.drop_last();
        assert(s == d.push(s.last()));
        d.lemma_filter_push(s.last(), p);
        count_where_filter(d, p, q, pq);
        if p(s.last()) {
            assert(d.filter(p).push(s.last()).drop_last() =~= d.filter(p));
        }
        assert(pq(s.last()) == (p(s.last()) && q(s.last())));
    } else {
        assert(s.filter(p) =~= Seq::<A>::empty());
    }
}

proof fn count_where_pointwise<A, B>(a: Seq<A>, b: Seq<B>, p: spec_fn(A) -> bool, q: spec_fn(B) -> bool)
    requires
        a.len() == b.len(),
        forall|k: int| 0 <= k < a.len() ==> p(#[trigger] a[k]) == q(b[k]),
    ensures
        count_where(a, p) == count_where(b, q),
    decreases a.len(),
{
    if a.len() > 0 {
        let (da, db) = (a.drop_last(), b.drop_last());
        assert forall|k: int| 0 <= k < da.len() implies p(#[trigger] da[k]) == q(db[k]) by {
            assert(da[k] == a[k] && db[k] == b[k]);
        }
        count_where_pointwise(da, db, p, q);
        assert(p(a[a.len() - 1]) == q(b[b.len() - 1]));
    }
}

proof fn count_where_none<A>(s: Seq<A>, p: spec_fn(A) -> bool)
    requires
        forall|i: int| 0 <= i < s.len() ==> !p(#[trigger] s[i]),
    ensures
        count_where(s, p) == 0,
    decreases s.len(),
{
    if s.len() > 0 {
        let d = s.drop_last();
        assert forall|i: int| 0 <= i < d.len() implies !p(#[trigger] d[i]) by {
            assert(d[i] == s[i]);
        }
        count_where_none(d, p);
        assert(!p(s[s.len() - 1]));
    }
}

proof fn count_where_one<A>(s: Seq<A>, p: spec_fn(A) -> bool, k: int)
    requires
        0 <= k < s.len(),
        p(s[k]),
        forall|i: int| 0 <= i < s.len() && i != k ==> !p(#[trigger] s[i]),
    ensures
        count_where(s, p) == 1,
    decreases s.len(),
{
    let d = s.drop_last();
    if k == s.len() - 1 {
        assert forall|i: int| 0 <= i < d.len() implies !p(#[trigger] d[i]) by {
            assert(d[i] == s[i]);
        }
        count_where_none(d, p);
    } else {
        assert forall|i: int| 0 <= i < d.len() && i != k implies !p(#[trigger] d[i]) by {
            assert(d[i] == s[i]);
        }
        assert(d[k] == s[k]);
        count_where_one(d, p, k);
        assert(!p(s[s.len() - 1]));
    }
}

proof fn count_where_some<A>(s: Seq<A>, p: spec_fn(A) -> bool, k: int)
    requires
        0 <= k < s.len(),
        p(s[k]),
    ensures
        count_where(s, p) >= 1,
    decreases s.len(),
{
    if k < s.len() - 1 {
        let d = s.drop_last();
        assert(d[k] == s[k]);
        count_where_some(d, p, k);
    }
}

/// The test that a read marker is the one of `me` for the message `id`.
pub open spec fn marker_test(me: Seq<char>, id: Seq<char>) -> spec_fn(message_read::Model) -> bool {
    |r: message_read::Model| r.agent_id@ == me && r.message_id@ == id
}

/// How many read markers `me` holds for the message `id`.
pub open spec fn marker_count(reads: Seq<message_read::Model>, me: Seq<char>, id: Seq<char>) -> nat {
    count_where(reads, marker_test(me, id))
}

/// The test that a message has the id `id`.
pub open spec fn id_test(id: Seq<char>) -> spec_fn(message::Model) -> bool {
    |m: message::Model| m.id@ == id
}

/// The test that a message from `from` to `me` is unread and has the id `id`.
pub open spec fn unread_with_id(
    reads: Seq<message_read::Model>,
    me: Seq<char>,
    from: Seq<char>,
    id: Seq<char>,
) -> spec_fn(message::Model) -> bool {
    |m: message::Model| unread_from(reads, me, from)(m) && m.id@ == id
}

/// A direct message from `from` to `me`.
pub open spec fn direct_from(m: message::Model, me: Seq<char>, from: Seq<char>) -> bool {
    m.from_agent@ == from && text::opt_text(m.to_agent) == Some(me)
}

/// Viewing a history leaves `me` exactly one read marker for each message
/// that the other agent sent to `me`, and changes the count of no other
/// message's markers, where message ids are distinct and `me` held at most
/// one marker per message (as the tables' keys make it). Every marker added
/// is one of `me`.
pub proof fn history_leaves_one_marker_each(
    msgs: Seq<message::Model>,
    reads: Seq<message_read::Model>,
    me: Seq<char>,
    from_agent: Seq<char>,
    added: Seq<message_read::Model>,
    now: i64,
)
    requires
        forall|i: int, j: int| 0 <= i < j < msgs.len() ==> (#[trigger] msgs[i]).id@ != (#[trigger] msgs[j]).id@,
        forall|id: Seq<char>| #[trigger] marker_count(reads, me, id) <= 1,
        added.len() == msgs.filter(unread_from(reads, me, from_agent)).len(),
        forall|k: int|
            0 <= k < added.len() ==> marks(
                #[trigger] added[k],
                me,
                msgs.filter(unread_from(reads, me, from_agent))[k],
                now,
            ),
    ensures
        forall|i: int|
            0 <= i < msgs.len() && direct_from(#[trigger] msgs[i], me, from_agent) ==> marker_count(
                reads + added,
                me,
                msgs[i].id@,
            ) == 1,
        forall|id: Seq<char>|
            (forall|i: int| 0 <= i < msgs.len() && direct_from(#[trigger] msgs[i], me, from_agent) ==> msgs[i].id@ != id)
                ==> #[trigger] marker_count(reads + added, me, id) == marker_count(reads, me, id),
        forall|k: int| 0 <= k < added.len() ==> (#[trigger] added[k]).agent_id@ == me,
{
    let sel = msgs.filter(unread_from(reads, me, from_agent));
    let uf = unread_from(reads, me, from_agent);
    // The markers added for a message id are as many as the unread messages
    // from the sender with that id.
    assert forall|id: Seq<char>| #[trigger] marker_count(reads + added, me, id) == marker_count(reads, me, id)
        + count_where(msgs, unread_with_id(reads, me, from_agent, id)) by {
        let idt = id_test(id);
        count_where_add(reads, added, marker_test(me, id));
        assert forall|k: int| 0 <= k < added.len() implies marker_test(me, id)(#[trigger] added[k]) == idt(
            sel[k],
        ) by {
            assert(marks(added[k], me, sel[k], now));
        }
        count_where_pointwise(added, sel, marker_test(me, id), idt);
        count_where_filter(msgs, uf, idt, unread_with_id(reads, me, from_agent, id));
    }
    assert forall|i: int| 0 <= i < msgs.len() && direct_from(#[trigger] msgs[i], me, from_agent) implies marker_count(
        reads + added,
        me,
        msgs[i].id@,
    ) == 1 by {
        let id = msgs[i].id@;
        let both = unread_with_id(reads, me, from_agent, id);
        assert(marker_count(reads + added, me, id) == marker_count(reads, me, id) + count_where(msgs, both));
        assert forall|j: int| 0 <= j < msgs.len() && j != i implies !both(#[trigger] msgs[j]) by {
            if j < i {
                assert(msgs[j].id@ != msgs[i].id@);
            } else {
                assert(msgs[i].id@ != msgs[j].id@);
            }
        }
        if is_read(reads, me, id) {
            let w = choose|w: int| 0 <= w < reads.len() && (#[trigger] reads[w]).agent_id@ == me && reads[w].message_id@ == id;
            count_where_some(reads, marker_test(me, id), w);
            assert(!both(msgs[i]));
            count_where_none(msgs, both);
        } else {
            assert forall|w: int| 0 <= w < reads.len() implies !marker_test(me, id)(#[trigger] reads[w]) by {}
            count_where_none(reads, marker_test(me, id));
            assert(both(msgs[i]));
            count_where_one(msgs, both, i);
        }
    }
    assert forall|id: Seq<char>|
        (forall|i: int| 0 <= i < msgs.len() && direct_from(#[trigger] msgs[i], me, from_agent) ==> msgs[i].id@ != id)
            implies #[trigger] marker_count(reads + added, me, id) == marker_count(reads, me, id) by {
        let both = unread_with_id(reads, me, from_agent, id);
        assert(marker_count(reads + added, me, id) == marker_count(reads, me, id) + count_where(msgs, both));
        assert forall|j: int| 0 <= j < msgs.len() implies !both(#[trigger] msgs[j]) by {
            if both(msgs[j]) {
                assert(direct_from(msgs[j], me, from_agent));
            }
        }
        count_where_none(msgs, both);
    }
    assert forall|k: int| 0 <= k < added.len() implies (#[trigger] added[k]).agent_id@ == me by {
        assert(marks(added[k], me, sel[k], now));
    }
}

/// Once the markers of `mark_all_read` are added, no message to `me` is unread.
pub proof fn all_read_clears_unread(
    msgs: Seq<message::Model>,
    reads: Seq<message_read::Model>,
    me: Seq<char>,
    added: Seq<message_read::Model>,
    now: i64,
)
    requires
        added.len() == msgs.filter(unread_test(reads, me)).len(),
        forall|k: int|
            0 <= k < added.len() ==> marks(
                #[trigger] added[k],
                me,
                msgs.filter(unread_test(reads, me))[k],
                now,
            ),
    ensures
        forall|i: int| 0 <= i < msgs.len() ==> !unread_by(#[trigger] msgs[i], reads + added, me),
{
    broadcast use vstd::seq_lib::group_filter_ensures;
    let sel = msgs.filter(unread_test(reads, me));
    assert forall|i: int| 0 <= i < msgs.len() implies !unread_by(#[trigger] msgs[i], reads + added, me) by {
        let m = msgs[i];
        if unread_by(m, reads, me) {
            assert(unread_test(reads, me)(m));
            assert(sel.contains(m));
            let k = choose|k: int| 0 <= k < sel.len() && sel[k] == m;
            assert(marks(added[k], me, m, now));
            assert((reads + added)[reads.len() + k] == added[k]);
            assert(is_read(reads + added, me, m.id@));
        } else if text::opt_text(m.to_agent) == Some(me) {
            let j = choose|j: int|
                0 <= j < reads.len() && (#[trigger] reads[j]).agent_id@ == me && reads[j].message_id@
                    == m.id@;
            assert((reads + added)[j] == reads[j]);
        }
    }
}

/// Mark a single message as read. `msg` is the message stored under `id`, if
/// any, and `existing` the marker `me` already has for it, if any. Gives the
/// marker to insert, or none when the message was read already.
pub fn mark_read(
    me: &str,
    id: &str,
    msg: Option<&message::Model>,
    existing: Option<&message_read::Model>,
    now: i64,
) -> (r: Result<Option<message_read::Model>, AppError>)
    ensures
        r is Err <==> (msg matches Some(m) ==> text::opt_text(m.to_agent) != Some(me@)),
        r is Err ==> fails_not_found(r, "message not found"@),
        r matches Ok(o) ==> (existing is Some <==> o is None),
        r matches Ok(Some(mk)) ==> mk.agent_id@ == me@ && mk.message_id@ == id@ && mk.read_at == now,
{
    let m = match msg {
        None => {
            return Err(AppError::NotFound(String::from_str("message not found")));
        },
        Some(m) => m,
    };
    let to_me = match &m.to_agent {
        Some(to) => text::text_eq(to.as_str(), me),
        None => false,
    };
    if !to_me {
        return Err(AppError::NotFound(String::from_str("message not found")));
    }
    if existing.is_some() {
        return Ok(None);
    }
    Ok(Some(message_read::Model { agent_id: String::from_str(me), message_id: String::from_str(id), read_at: now }))
}


// ── Inbox summary ──

/// The number of unread messages from `from` to `me` among `msgs`.
pub open spec fn unread_count(
    msgs: Seq<message::Model>,
    reads: Seq<message_read::Model>,
    me: Seq<char>,
    from: Seq<char>,
) -> nat {
    msgs.filter(unread_from(reads, me, from)).len()
}

/// The test that an agent row has the id.
pub open spec fn has_id(id: Seq<char>) -> spec_fn(agent::Model) -> bool {
    |a: agent::Model| a.id@ == id
}

/// The name of the agent with the id among `agents`, or the empty text.
pub open spec fn name_of(agents: Seq<agent::Model>, id: Seq<char>) -> Seq<char> {
    let m = agents.filter(has_id(id));
    if m.len() > 0 {
        m[0].name@
    } else {
        Seq::empty()
    }
}

/// The name of the agent with the id, or the empty text when there is none.
pub fn agent_name(agents: &Vec<agent::Model>, id: &str) -> (r: String)
    ensures
        r@ == name_of(agents@, id@),
{
    broadcast use vstd::seq_lib::group_filter_ensures;
    let mut i: usize = 0;
    while i < agents.len()
        invariant
            i <= agents.len(),
            agents@.take(i as int).filter(has_id(id@)).len() == 0,
        decreases agents.len() - i,
    {
        proof {
            assert(agents@.take(i + 1) =~= agents@.take(i as int).push(agents@[i as int]));
            agents@.take(i as int).lemma_filter_push(agents@[i as int], has_id(id@));
        }
        if text::text_eq(agents[i].id.as_str(), id) {
            proof {
                let rest = agents@.subrange(i + 1, agents@.len() as int);
                assert(agents@ =~= agents@.take(i + 1) + rest);
                Seq::filter_distributes_over_add(agents@.take(i + 1), rest, has_id(id@));
                assert(agents@.take(i + 1).filter(has_id(id@)) =~= seq![agents@[i as int]]);
            }
            return agents[i].name.clone();
        }
        i = i + 1;
    }
    proof {
        assert(agents@.take(agents.len() as int) =~= agents@);
    }
    String::new()
}

/// The senders of a group list.
pub open spec fn group_keys(g: Seq<(String, u32)>) -> Seq<Seq<char>> {
    g.map_values(|x: (String, u32)| x.0@)
}

/// No sender appears twice.
pub open spec fn distinct_keys(g: Seq<(String, u32)>) -> bool {
    forall|p: int, q: int| 0 <= p < q < g.len() ==> (#[trigger] g[p]).0@ != (#[trigger] g[q]).0@
}

/// Counts never grow along the list.
pub open spec fn sorted_desc(g: Seq<(String, u32)>) -> bool {
    forall|p: int, q: int| 0 <= p < q < g.len() ==> (#[trigger] g[p]).1 >= (#[trigger] g[q]).1
}

/// Each group holds the number of unread messages from its sender, and some.
pub open spec fn counted(
    g: Seq<(String, u32)>,
    msgs: Seq<message::Model>,
    reads: Seq<message_read::Model>,
    me: Seq<char>,
) -> bool {
    forall|p: int|
        0 <= p < g.len() ==> (#[trigger] g[p]).1 == unread_count(msgs, reads, me, g[p].0@) && g[p].1
            > 0
}

/// How adding one message changes the count of a sender.
proof fn unread_count_step(
    msgs: Seq<message::Model>,
    reads: Seq<message_read::Model>,
    me: Seq<char>,
    i: int,
    from: Seq<char>,
)
    requires
        0 <= i < msgs.len(),
    ensures
        unread_count(msgs.take(i + 1), reads, me, from) == unread_count(msgs.take(i), reads, me, from)
            + (if unread_by(msgs[i], reads, me) && msgs[i].from_agent@ == from {
            1int
        } else {
            0int
        }),
{
    broadcast use vstd::seq_lib::group_filter_ensures;
    assert(msgs.take(i + 1) =~= msgs.take(i).push(msgs[i]));
    msgs.take(i).lemma_filter_push(msgs[i], unread_from(reads, me, from));
}

/// Group the unread messages by sender, in order of first appearance.
fn group_unread(msgs: &Vec<message::Model>, reads: &Vec<message_read::Model>, me: &str) -> (g: Vec<
    (String, u32),
>)
    requires
        msgs@.len() <= u32::MAX,
    ensures
        counted(g@, msgs@, reads@, me@),
        distinct_keys(g@),
        forall|t: int|
            0 <= t < msgs@.len() && unread_by(#[trigger] msgs@[t], reads@, me@) ==> group_keys(
                g@,
            ).contains(msgs@[t].from_agent@),
{
    broadcast use vstd::seq_lib::group_filter_ensures;
    let mut groups: Vec<(String, u32)> = Vec::new();
    let mut i: usize = 0;
    while i < msgs.len()
        invariant
            i <= msgs.len(),
            msgs@.len() <= u32::MAX,
            counted(groups@, msgs@.take(i as int), reads@, me@),
            distinct_keys(groups@),
            forall|p: int| 0 <= p < groups@.len() ==> (#[trigger] groups@[p]).1 <= i,
            forall|t: int|
                0 <= t < i && unread_by(#[trigger] msgs@[t], reads@, me@) ==> group_keys(
                    groups@,
                ).contains(msgs@[t].from_agent@),
        decreases msgs.len() - i,
    {
        let m = &msgs[i];
        let ghost g0 = groups@;
        proof {
            assert forall|s2: Seq<char>| true implies #[trigger] unread_count(
                msgs@.take(i + 1),
                reads@,
                me@,
                s2,
            ) == unread_count(msgs@.take(i as int), reads@, me@, s2) + (if unread_by(
                msgs@[i as int],
                reads@,
                me@,
            ) && msgs@[i as int].from_agent@ == s2 {
                1int
            } else {
                0int
            }) by {
                unread_count_step(msgs@, reads@, me@, i as int, s2);
            }
        }
        if is_unread(m, reads, me) {
            let mut j: usize = 0;
            let mut found = false;
            while j < groups.len() && !found
                invariant
                    j <= groups.len(),
                    groups@ == g0,
                    found ==> j < groups.len() && groups@[j as int].0@ == m.from_agent@,
                    forall|q: int| 0 <= q < j ==> (#[trigger] groups@[q]).0@ != m.from_agent@,
                decreases groups.len() - j + (if found { 0int } else { 1int }),
            {
                if text::text_eq(groups[j].0.as_str(), m.from_agent.as_str()) {
                    found = true;
                } else {
                    j = j + 1;
                }
            }
            if found {
                let (k, c) = (groups[j].0.clone(), groups[j].1);
                groups.set(j, (k, c + 1));
                proof {
                    assert forall|t: int|
                        0 <= t < i + 1 && unread_by(#[trigger] msgs@[t], reads@, me@) implies group_keys(
                        groups@,
                    ).contains(msgs@[t].from_agent@) by {
                        if t < i {
                            let p = choose|p: int| 0 <= p < g0.len() && group_keys(g0)[p] == msgs@[t].from_agent@;
                            assert(group_keys(groups@)[p] == msgs@[t].from_agent@);
                        } else {
                            assert(group_keys(groups@)[j as int] == msgs@[t].from_agent@);
                        }
                    }
                }
            } else {
                groups.push((m.from_agent.clone(), 1));
                proof {
                    assert forall|t: int|
                        0 <= t < i + 1 && unread_by(#[trigger] msgs@[t], reads@, me@) implies group_keys(
                        groups@,
                    ).contains(msgs@[t].from_agent@) by {
                        if t < i {
                            let p = choose|p: int| 0 <= p < g0.len() && group_keys(g0)[p] == msgs@[t].from_agent@;
                            assert(group_keys(groups@)[p] == msgs@[t].from_agent@);
                        } else {
                            assert(group_keys(groups@)[g0.len() as int] == msgs@[t].from_agent@);
                        }
                    }
                    assert(unread_count(msgs@.take(i as int), reads@, me@, m.from_agent@) == 0) by {
                        if unread_count(msgs@.take(i as int), reads@, me@, m.from_agent@) > 0 {
                            let sel = msgs@.take(i as int).filter(unread_from(reads@, me@, m.from_agent@));
                            assert(sel.contains(sel[0]));
                            msgs@.take(i as int).lemma_filter_contains_rev(
                                unread_from(reads@, me@, m.from_agent@),
                                sel[0],
                            );
                            let t = choose|t: int| 0 <= t < i && msgs@.take(i as int)[t] == sel[0];
                            assert(msgs@[t] == sel[0]);
                            assert(unread_from(reads@, me@, m.from_agent@)(sel[0]));
                            assert(unread_by(msgs@[t], reads@, me@));
                            let p = choose|p: int| 0 <= p < g0.len() && group_keys(g0)[p] == msgs@[t].from_agent@;
                            assert(g0[p].0@ == m.from_agent@);
                            assert(groups@[p].0@ != m.from_agent@);
                        }
                    }
                }
            }
        } else {
            proof {
                assert forall|t: int|
                    0 <= t < i + 1 && unread_by(#[trigger] msgs@[t], reads@, me@) implies group_keys(
                    groups@,
                ).contains(msgs@[t].from_agent@) by {
                }
            }
        }
        i = i + 1;
    }
    proof {
        assert(msgs@.take(msgs.len() as int) =~= msgs@);
    }
    groups
}


/// Insert a group into a list sorted by count, after every group with at
/// least its count.
fn insert_by_count(v: Vec<(String, u32)>, x: (String, u32)) -> (r: Vec<(String, u32)>)
    requires
        sorted_desc(v@),
    ensures
        sorted_desc(r@),
        exists|pos: int| 0 <= pos <= v@.len() && r@ == v@.insert(pos, x),
{
    let mut pos: usize = 0;
    while pos < v.len() && v[pos].1 >= x.1
        invariant
            pos <= v.len(),
            forall|q: int| 0 <= q < pos ==> (#[trigger] v@[q]).1 >= x.1,
        decreases v.len() - pos,
    {
        pos = pos + 1;
    }
    let ghost old_v = v@;
    let mut r = v;
    r.insert(pos, x);
    proof {
        old_v.insert_ensures(pos as int, x);
        assert forall|p: int, q: int| 0 <= p < q < r@.len() implies (#[trigger] r@[p]).1 >= (
        #[trigger] r@[q]).1 by {
            if q < pos {
            } else if q == pos {
            } else if p < pos {
                assert(r@[q] == old_v[q - 1]);
            } else if p == pos {
                assert(r@[q] == old_v[q - 1]);
                assert(old_v[pos as int].1 < x.1);
            } else {
                assert(r@[q] == old_v[q - 1]);
                assert(r@[p] == old_v[p - 1]);
            }
        }
    }
    r
}

/// The groups sorted by count, most unread first.
fn sort_groups(g: Vec<(String, u32)>) -> (r: Vec<(String, u32)>)
    ensures
        sorted_desc(r@),
        r@.to_multiset() == g@.to_multiset(),
{
    broadcast use vstd::seq_lib::group_to_multiset_ensures;
    let mut out: Vec<(String, u32)> = Vec::new();
    let mut k: usize = 0;
    while k < g.len()
        invariant
            k <= g.len(),
            sorted_desc(out@),
            out@.to_multiset() == g@.take(k as int).to_multiset(),
        decreases g.len() - k,
    {
        let ghost before = out@;
        let x = (g[k].0.clone(), g[k].1);
        out = insert_by_count(out, x);
        proof {
            let pos = choose|pos: int| 0 <= pos <= before.len() && out@ == before.insert(pos, x);
            vstd::seq_lib::to_multiset_insert(before, pos, x);
            assert(g@.take(k + 1) =~= g@.take(k as int).push(g@[k as int]));
            assert(x == g@[k as int]);
            vstd::seq_lib::to_multiset_build(g@.take(k as int), x);
            assert(out@.to_multiset() == g@.take(k + 1).to_multiset());
        }
        k = k + 1;
    }
    proof {
        assert(g@.take(g.len() as int) =~= g@);
    }
    out
}

/// `r` summarises the unread messages to `me`: one entry per sender, with
/// the number of unread messages and the sender's name, most unread first.
pub open spec fn summarises(
    r: Seq<InboxSummaryEntry>,
    msgs: Seq<message::Model>,
    reads: Seq<message_read::Model>,
    agents: Seq<agent::Model>,
    me: Seq<char>,
) -> bool {
    &&& forall|p: int|
        0 <= p < r.len() ==> (#[trigger] r[p]).unread_count == unread_count(
            msgs,
            reads,
            me,
            r[p].from_agent@,
        ) && r[p].unread_count > 0 && r[p].agent_name@ == name_of(agents, r[p].from_agent@)
    &&& forall|p: int, q: int|
        0 <= p < q < r.len() ==> (#[trigger] r[p]).from_agent@ != (#[trigger] r[q]).from_agent@
    &&& forall|p: int, q: int|
        0 <= p < q < r.len() ==> (#[trigger] r[p]).unread_count >= (#[trigger] r[q]).unread_count
    &&& forall|t: int|
        0 <= t < msgs.len() && unread_by(#[trigger] msgs[t], reads, me) ==> exists|p: int|
            0 <= p < r.len() && (#[trigger] r[p]).from_agent@ == msgs[t].from_agent@
}

/// Build inbox summary: unread message counts grouped by sender. `msgs` are
/// the messages, `reads` the read markers, `agents` the agents whose names
/// are shown.
pub fn build_inbox_summary(
    msgs: &Vec<message::Model>,
    reads: &Vec<message_read::Model>,
    agents: &Vec<agent::Model>,
    me: &str,
) -> (r: Vec<InboxSummaryEntry>)
    requires
        msgs@.len() <= u32::MAX,
    ensures
        summarises(r@, msgs@, reads@, agents@, me@),
{
    broadcast use vstd::seq_lib::group_to_multiset_ensures;
    let groups = group_unread(msgs, reads, me);
    let sorted = sort_groups(groups);
    let ghost gs = groups@;
    proof {
        assert forall|p: int| 0 <= p < sorted@.len() implies gs.contains(#[trigger] sorted@[p]) by {
            assert(sorted@.to_multiset().count(sorted@[p]) > 0);
        }
        assert forall|j: int| 0 <= j < gs.len() implies sorted@.contains(#[trigger] gs[j]) by {
            assert(gs.to_multiset().count(gs[j]) > 0);
        }
    }
    let mut out: Vec<InboxSummaryEntry> = Vec::new();
    let mut i: usize = 0;
    while i < sorted.len()
        invariant
            i <= sorted.len(),
            out@.len() == i,
            forall|p: int|
                0 <= p < i ==> (#[trigger] out@[p]).from_agent@ == sorted@[p].0@ && out@[p].unread_count
                    == sorted@[p].1 && out@[p].agent_name@ == name_of(agents@, sorted@[p].0@),
        decreases sorted.len() - i,
    {
        let name = agent_name(agents, sorted[i].0.as_str());
        out.push(
            InboxSummaryEntry {
                from_agent: sorted[i].0.clone(),
                agent_name: name,
                unread_count: sorted[i].1,
            },
        );
        i = i + 1;
    }
    proof {
        let r = out@;
        assert(gs.no_duplicates()) by {
            assert forall|a: int, b: int| 0 <= a < gs.len() && 0 <= b < gs.len() && a != b implies gs[a]
                != gs[b] by {
                if a < b {
                    assert(gs[a].0@ != gs[b].0@);
                } else {
                    assert(gs[b].0@ != gs[a].0@);
                }
            }
        }
        gs.lemma_multiset_has_no_duplicates();
        sorted@.lemma_multiset_has_no_duplicates_conv();
        assert forall|p: int| 0 <= p < r.len() implies (#[trigger] r[p]).unread_count == unread_count(
            msgs@,
            reads@,
            me@,
            r[p].from_agent@,
        ) && r[p].unread_count > 0 && r[p].agent_name@ == name_of(agents@, r[p].from_agent@) by {
            assert(gs.contains(sorted@[p]));
            let j = choose|j: int| 0 <= j < gs.len() && gs[j] == sorted@[p];
            assert(gs[j].1 == unread_count(msgs@, reads@, me@, gs[j].0@));
        }
        assert forall|p: int, q: int| 0 <= p < q < r.len() implies (#[trigger] r[p]).from_agent@ != (
        #[trigger] r[q]).from_agent@ by {
            if r[p].from_agent@ == r[q].from_agent@ {
                assert(gs.contains(sorted@[p]));
                assert(gs.contains(sorted@[q]));
                let jp = choose|j: int| 0 <= j < gs.len() && gs[j] == sorted@[p];
                let jq = choose|j: int| 0 <= j < gs.len() && gs[j] == sorted@[q];
                if jp != jq {
                    if jp < jq {
                        assert(gs[jp].0@ != gs[jq].0@);
                    } else {
                        assert(gs[jq].0@ != gs[jp].0@);
                    }
                }
                assert(sorted@[p] == sorted@[q]);
            }
        }
        assert forall|p: int, q: int| 0 <= p < q < r.len() implies (#[trigger] r[p]).unread_count >= (
        #[trigger] r[q]).unread_count by {
            assert(sorted@[p].1 >= sorted@[q].1);
        }
        assert forall|t: int|
            0 <= t < msgs@.len() && unread_by(#[trigger] msgs@[t], reads@, me@) implies exists|p: int|
            0 <= p < r.len() && (#[trigger] r[p]).from_agent@ == msgs@[t].from_agent@ by {
            assert(group_keys(gs).contains(msgs@[t].from_agent@));
            let j = choose|j: int| 0 <= j < gs.len() && group_keys(gs)[j] == msgs@[t].from_agent@;
            assert(sorted@.contains(gs[j]));
            let p = choose|p: int| 0 <= p < sorted@.len() && sorted@[p] == gs[j];
            assert(r[p].from_agent@ == msgs@[t].from_agent@);
        }
    }
    out
}


/// Once the markers of `mark_read_from` are added, the inbox summary has no
/// entry for that sender: viewing a history clears it from the inbox.
pub proof fn history_removes_sender_from_inbox(
    msgs: Seq<message::Model>,
    reads: Seq<message_read::Model>,
    agents: Seq<agent::Model>,
    me: Seq<char>,
    from_agent: Seq<char>,
    added: Seq<message_read::Model>,
    now: i64,
    summary: Seq<InboxSummaryEntry>,
)
    requires
        added.len() == msgs.filter(unread_from(reads, me, from_agent)).len(),
        forall|k: int|
            0 <= k < added.len() ==> marks(
                #[trigger] added[k],
                me,
                msgs.filter(unread_from(reads, me, from_agent))[k],
                now,
            ),
        summarises(summary, msgs, reads + added, agents, me),
    ensures
        forall|p: int| 0 <= p < summary.len() ==> (#[trigger] summary[p]).from_agent@ != from_agent,
{
    broadcast use vstd::seq_lib::group_filter_ensures;
    history_clears_unread_from(msgs, reads, me, from_agent, added, now);
    assert forall|p: int| 0 <= p < summary.len() implies (#[trigger] summary[p]).from_agent@
        != from_agent by {
        if summary[p].from_agent@ == from_agent {
            let sel = msgs.filter(unread_from(reads + added, me, from_agent));
            assert(sel.len() > 0);
            assert(sel.contains(sel[0]));
            msgs.lemma_filter_contains_rev(unread_from(reads + added, me, from_agent), sel[0]);
            let i = choose|i: int| 0 <= i < msgs.len() && msgs[i] == sel[0];
            assert(!unread_from(reads + added, me, from_agent)(msgs[i]));
        }
    }
}

/// Once the markers of `mark_all_read` are added, the inbox summary is empty.
pub proof fn all_read_empties_inbox(
    msgs: Seq<message::Model>,
    reads: Seq<message_read::Model>,
    agents: Seq<agent::Model>,
    me: Seq<char>,
    added: Seq<message_read::Model>,
    now: i64,
    summary: Seq<InboxSummaryEntry>,
)
    requires
        added.len() == msgs.filter(unread_test(reads, me)).len(),
        forall|k: int|
            0 <= k < added.len() ==> marks(
                #[trigger] added[k],
                me,
                msgs.filter(unread_test(reads, me))[k],
                now,
            ),
        summarises(summary, msgs, reads + added, agents, me),
    ensures
        summary.len() == 0,
{
    broadcast use vstd::seq_lib::group_filter_ensures;
    all_read_clears_unread(msgs, reads, me, added, now);
    if summary.len() > 0 {
        let from = summary[0].from_agent@;
        let sel = msgs.filter(unread_from(reads + added, me, from));
        assert(sel.len() > 0);
        assert(sel.contains(sel[0]));
        msgs.lemma_filter_contains_rev(unread_from(reads + added, me, from), sel[0]);
        let i = choose|i: int| 0 <= i < msgs.len() && msgs[i] == sel[0];
        assert(!unread_by(msgs[i], reads + added, me));
    }
}

// ── Ordering ──

/// Each message is at least as new as the next.
pub open spec fn newest_first(s: Seq<message::Model>) -> bool {
    forall|p: int, q: int| 0 <= p < q < s.len() ==> (#[trigger] s[p]).created_at >= (#[trigger] s[q]).created_at
}

/// Insert a message into a newest-first list, after every message at least as new.
fn insert_by_time(v: Vec<message::Model>, x: message::Model) -> (r: Vec<message::Model>)
    requires
        newest_first(v@),
    ensures
        newest_first(r@),
        exists|pos: int| 0 <= pos <= v@.len() && r@ == v@.insert(pos, x),
{
    let mut pos: usize = 0;
    while pos < v.len() && v[pos].created_at >= x.created_at
        invariant
            pos <= v.len(),
            forall|q: int| 0 <= q < pos ==> (#[trigger] v@[q]).created_at >= x.created_at,
        decreases v.len() - pos,
    {
        pos = pos + 1;
    }
    let ghost old_v = v@;
    let mut r = v;
    r.insert(pos, x);
    proof {
        old_v.insert_ensures(pos as int, x);
        assert forall|p: int, q: int| 0 <= p < q < r@.len() implies (#[trigger] r@[p]).created_at >= (
        #[trigger] r@[q]).created_at by {
            if q < pos {
            } else if q == pos {
            } else if p < pos {
                assert(r@[q] == old_v[q - 1]);
            } else if p == pos {
                assert(r@[q] == old_v[q - 1]);
                assert(old_v[pos as int].created_at < x.created_at);
            } else {
                assert(r@[q] == old_v[q - 1]);
                assert(r@[p] == old_v[p - 1]);
            }
        }
    }
    r
}

/// Arrange messages newest first.
pub fn sort_newest_first(v: Vec<message::Model>) -> (r: Vec<message::Model>)
    ensures
        newest_first(r@),
        r@.to_multiset() == v@.to_multiset(),
{
    broadcast use vstd::seq_lib::group_to_multiset_ensures;
    let mut out: Vec<message::Model> = Vec::new();
    let mut rest = v;
    let ghost orig = rest@;
    let mut k: usize = 0;
    while k < rest.len()
        invariant
            k <= rest.len(),
            rest@ == orig,
            newest_first(out@),
            out@.to_multiset() == orig.take(k as int).to_multiset(),
        decreases rest.len() - k,
    {
        let ghost before = out@;
        let x = rest[k].duplicate();
        out = insert_by_time(out, x);
        proof {
            let pos = choose|pos: int| 0 <= pos <= before.len() && out@ == before.insert(pos, x);
            vstd::seq_lib::to_multiset_insert(before, pos, x);
            assert(orig.take(k + 1) =~= orig.take(k as int).push(orig[k as int]));
            vstd::seq_lib::to_multiset_build(orig.take(k as int), x);
        }
        k = k + 1;
    }
    proof {
        assert(orig.take(orig.len() as int) =~= orig);
    }
    out
}

/// The first `n` of a list (all of it when shorter).
pub open spec fn first_n(s: Seq<message::Model>, n: nat) -> Seq<message::Model> {
    if n < s.len() {
        s.take(n as int)
    } else {
        s
    }
}

/// Keep the first `n` messages.
fn keep_first(v: Vec<message::Model>, n: usize) -> (r: Vec<message::Model>)
    ensures
        r@ == first_n(v@, n as nat),
{
    let mut r = v;
    if n < r.len() {
        r.truncate(n);
    }
    r
}

/// `r` shows the newest `n` of the messages `sel`: they are arranged newest
/// first and the first `n` of them are shown in order.
pub open spec fn shows_newest(r: Seq<MessageResponse>, sel: Seq<message::Model>, n: nat) -> bool {
    exists|s: Seq<message::Model>|
        {
            &&& s.to_multiset() == sel.to_multiset()
            &&& newest_first(s)
            &&& r.len() == first_n(s, n).len()
            &&& forall|k: int| 0 <= k < r.len() ==> shows_message(s[k], #[trigger] r[k])
        }
}

/// Arrange messages newest first, keep the first `n`, and show them.
pub fn newest_responses(sel: Vec<message::Model>, n: usize) -> (r: Vec<MessageResponse>)
    requires
        forall|i: int| 0 <= i < sel.len() ==> valid_time(#[trigger] sel@[i].created_at),
    ensures
        shows_newest(r@, sel@, n as nat),
{
    broadcast use vstd::seq_lib::group_to_multiset_ensures;
    let ghost orig = sel@;
    let sorted = sort_newest_first(sel);
    let ghost s = sorted@;
    proof {
        assert forall|i: int| 0 <= i < s.len() implies valid_time(#[trigger] s[i].created_at) by {
            assert(s.to_multiset().count(s[i]) > 0);
            assert(orig.contains(s[i]));
        }
    }
    let kept = keep_first(sorted, n);
    proof {
        assert forall|i: int| 0 <= i < kept@.len() implies valid_time(#[trigger] kept@[i].created_at) by {
            assert(kept@[i] == s[i]);
        }
    }
    let r = to_responses(&kept);
    proof {
        assert forall|k: int| 0 <= k < r@.len() implies shows_message(s[k], #[trigger] r@[k]) by {
            assert(kept@[k] == s[k]);
        }
    }
    r
}

// ── Sending ──

/// `m` is the row of a direct message from `me` with the request's content,
/// stored with a fresh id at `now`.
pub open spec fn new_direct_message(
    m: message::Model,
    me: Seq<char>,
    to: Seq<char>,
    content: Seq<char>,
    now: i64,
) -> bool {
    &&& m.id@.len() == 36
    &&& m.from_agent@ == me
    &&& text::opt_text(m.to_agent) == Some(to)
    &&& m.channel_id is None
    &&& m.content@ == content
    &&& m.msg_type == message::MsgType::Text
    &&& m.created_at == now
}

/// A message type that the service accepts: `text`, or none given.
pub open spec fn supported_type(t: Option<String>) -> bool {
    match t {
        None => true,
        Some(x) => x@ == "text"@,
    }
}

/// Send a direct message from `me`. `contacts` are the contact rows (for
/// blocks) and `recipient` the agent stored under the requested id, if any.
/// Gives the row to insert and the answer (which is also pushed to the recipient).
pub fn send_message(
    me: &str,
    req: &crate::api::dto::SendMessageRequest,
    contacts: &Vec<contact::Model>,
    recipient: Option<&agent::Model>,
    now: i64,
) -> (r: Result<(message::Model, MessageResponse), AppError>)
    requires
        valid_time(now),
    ensures
        text::is_blank(req.content@) ==> fails_validation(r, "content must not be empty"@),
        !text::is_blank(req.content@) && me@ == req.to_agent@ ==> fails_validation(
            r,
            "cannot send message to self"@,
        ),
        !text::is_blank(req.content@) && me@ != req.to_agent@ && blocked_between(
            contacts@,
            me@,
            req.to_agent@,
        ) ==> fails_forbidden(r, "cannot send message — blocked"@),
        !text::is_blank(req.content@) && me@ != req.to_agent@ && !blocked_between(
            contacts@,
            me@,
            req.to_agent@,
        ) && recipient is None ==> fails_not_found(r, agent_not_found_text(req.to_agent@)),
        (!text::is_blank(req.content@) && me@ != req.to_agent@ && !blocked_between(
            contacts@,
            me@,
            req.to_agent@,
        ) && recipient is Some && (req.msg_type matches Some(t) && t@ != "text"@)) ==> fails_validation(
            r,
            "unsupported msg_type: "@ + req.msg_type->0@,
        ),
        r is Ok <==> !text::is_blank(req.content@) && me@ != req.to_agent@ && !blocked_between(
            contacts@,
            me@,
            req.to_agent@,
        ) && recipient is Some && supported_type(req.msg_type),
        r matches Ok((m, resp)) ==> new_direct_message(m, me@, req.to_agent@, req.content@, now)
            && shows_message(m, resp),
        r matches Ok((m, _)) ==> m.well_addressed(),
{
    if text::blank(req.content.as_str()) {
        return Err(AppError::Validation(String::from_str("content must not be empty")));
    }
    if text::text_eq(me, req.to_agent.as_str()) {
        return Err(AppError::Validation(String::from_str("cannot send message to self")));
    }
    if check_blocked(contacts, me, req.to_agent.as_str()) {
        return Err(AppError::Forbidden(String::from_str("cannot send message — blocked")));
    }
    if recipient.is_none() {
        return Err(agent_not_found(req.to_agent.as_str()));
    }
    match &req.msg_type {
        Some(t) => {
            proof {
                reveal_strlit("text");
                reveal_strlit("unsupported msg_type: ");
            }
            if !text::text_eq(t.as_str(), "text") {
                return Err(AppError::Validation(text::concat2("unsupported msg_type: ", t.as_str())));
            }
        },
        None => {},
    }
    let m = message::Model {
        id: crate::ids::new_id(),
        from_agent: String::from_str(me),
        to_agent: Some(req.to_agent.clone()),
        channel_id: None,
        content: req.content.clone(),
        msg_type: message::MsgType::Text,
        created_at: now,
    };
    let resp = to_response(&m);
    Ok((m, resp))
}

// ── History ──

/// A direct message between the two agents, either way.
pub open spec fn between(m: message::Model, a: Seq<char>, b: Seq<char>) -> bool {
    (m.from_agent@ == a && text::opt_text(m.to_agent) == Some(b)) || (m.from_agent@ == b
        && text::opt_text(m.to_agent) == Some(a))
}

/// The page size of a history: the requested size, 20 when none, at most 20.
pub open spec fn history_limit(limit: Option<u32>) -> nat {
    match limit {
        Some(l) => if l < 20 {
            l as nat
        } else {
            20
        },
        None => 20,
    }
}

/// The messages of a history page: between the two agents and, with a
/// cursor, older than the cursor message.
pub open spec fn in_history(
    m: message::Model,
    me: Seq<char>,
    other: Seq<char>,
    cursor: Option<message::Model>,
) -> bool {
    between(m, me, other) && match cursor {
        Some(c) => m.created_at < c.created_at,
        None => true,
    }
}

/// The test of `in_history`.
pub open spec fn history_test(me: Seq<char>, other: Seq<char>, cursor: Option<message::Model>) -> spec_fn(
    message::Model,
) -> bool {
    |m: message::Model| in_history(m, me, other, cursor)
}

/// What `shows_newest` shows is taken from the selection: the `k`-th
/// response shows the `k`-th of an arrangement `s` of `sel`, each of which
/// is in `sel`.
pub proof fn shown_are_selected(r: Seq<MessageResponse>, sel: Seq<message::Model>, n: nat) -> (s: Seq<
    message::Model,
>)
    requires
        shows_newest(r, sel, n),
    ensures
        r.len() <= s.len(),
        forall|k: int| 0 <= k < r.len() ==> sel.contains(#[trigger] s[k]) && shows_message(s[k], r[k]),
{
    broadcast use vstd::seq_lib::group_to_multiset_ensures;
    let s = choose|s: Seq<message::Model>|
        {
            &&& s.to_multiset() == sel.to_multiset()
            &&& newest_first(s)
            &&& r.len() == first_n(s, n).len()
            &&& forall|k: int| 0 <= k < r.len() ==> shows_message(s[k], #[trigger] r[k])
        };
    assert forall|k: int| 0 <= k < r.len() implies sel.contains(#[trigger] s[k]) && shows_message(s[k], r[k]) by {
        assert(s.to_multiset().count(s[k]) > 0);
        assert(shows_message(s[k], r[k]));
    }
    s
}

/// A history of `me` with `other` shows only the direct messages between
/// the two: each one is from `me` to `other` or from `other` to `me`.
pub proof fn history_is_between_the_two(
    r: Seq<MessageResponse>,
    msgs: Seq<message::Model>,
    me: Seq<char>,
    other: Seq<char>,
    cursor: Option<message::Model>,
    n: nat,
)
    requires
        shows_newest(r, msgs.filter(history_test(me, other, cursor)), n),
    ensures
        forall|k: int|
            0 <= k < r.len() ==> ((#[trigger] r[k]).from_agent@ == me && text::opt_text(r[k].to_agent)
                == Some(other)) || (r[k].from_agent@ == other && text::opt_text(r[k].to_agent)
                == Some(me)),
{
    broadcast use vstd::seq_lib::group_filter_ensures;
    let s = shown_are_selected(r, msgs.filter(history_test(me, other, cursor)), n);
    assert forall|k: int| 0 <= k < r.len() implies ((#[trigger] r[k]).from_agent@ == me
        && text::opt_text(r[k].to_agent) == Some(other)) || (r[k].from_agent@ == other
        && text::opt_text(r[k].to_agent) == Some(me)) by {
        assert(msgs.filter(history_test(me, other, cursor)).contains(s[k]));
        msgs.lemma_filter_contains_rev(history_test(me, other, cursor), s[k]);
    }
}

/// A page of history: the answer and the read markers to insert.
pub struct HistoryPage {
    pub messages: Vec<MessageResponse>,
    pub read_markers: Vec<message_read::Model>,
}

/// Chat history of `me` with `other`, newest first. `msgs` are the stored
/// messages, `cursor` the message stored under the `before` id of the
/// request, if any, and `reads` the read markers of `me`. Viewing the
/// history marks every message from `other` to `me` as read.
pub fn chat_history(
    me: &str,
    other: &str,
    params: &crate::api::dto::ChatHistoryParams,
    msgs: &Vec<message::Model>,
    cursor: Option<&message::Model>,
    reads: &Vec<message_read::Model>,
    now: i64,
) -> (r: HistoryPage)
    requires
        forall|i: int| 0 <= i < msgs.len() ==> valid_time(#[trigger] msgs@[i].created_at),
    ensures
        ({
            let c = if params.before is Some {
                match cursor {
                    Some(c) => Some(*c),
                    None => None,
                }
            } else {
                None
            };
            shows_newest(
                r.messages@,
                msgs@.filter(history_test(me@, other@, c)),
                history_limit(params.limit),
            )
        }),
        forall|k: int|
            0 <= k < r.messages@.len() ==> ((#[trigger] r.messages@[k]).from_agent@ == me@
                && text::opt_text(r.messages@[k].to_agent) == Some(other@)) || (r.messages@[k].from_agent@
                == other@ && text::opt_text(r.messages@[k].to_agent) == Some(me@)),
        r.read_markers@.len() == msgs@.filter(unread_from(reads@, me@, other@)).len(),
        forall|k: int|
            0 <= k < r.read_markers@.len() ==> marks(
                #[trigger] r.read_markers@[k],
                me@,
                msgs@.filter(unread_from(reads@, me@, other@))[k],
                now,
            ),
{
    broadcast use vstd::seq_lib::group_filter_ensures;
    let limit: usize = match params.limit {
        Some(l) => if l < 20 {
            l as usize
        } else {
            20
        },
        None => 20,
    };
    let c: Option<&message::Model> = if params.before.is_some() {
        cursor
    } else {
        None
    };
    let ghost cv = match c {
        Some(x) => Some(*x),
        None => None,
    };
    let ghost pred = history_test(me@, other@, cv);
    let mut sel: Vec<message::Model> = Vec::new();
    let mut i: usize = 0;
    while i < msgs.len()
        invariant
            i <= msgs.len(),
            pred == history_test(me@, other@, cv),
            cv == (match c {
                Some(x) => Some(*x),
                None => None::<message::Model>,
            }),
            forall|k: int| 0 <= k < msgs.len() ==> valid_time(#[trigger] msgs@[k].created_at),
            sel@ == msgs@.take(i as int).filter(pred),
        decreases msgs.len() - i,
    {
        proof {
            assert(msgs@.take(i + 1) =~= msgs@.take(i as int).push(msgs@[i as int]));
            msgs@.take(i as int).lemma_filter_push(msgs@[i as int], pred);
        }
        let m = &msgs[i];
        let to_other = match &m.to_agent {
            Some(t) => text::text_eq(t.as_str(), other),
            None => false,
        };
        let to_me = match &m.to_agent {
            Some(t) => text::text_eq(t.as_str(), me),
            None => false,
        };
        let is_between = (text::text_eq(m.from_agent.as_str(), me) && to_other) || (text::text_eq(
            m.from_agent.as_str(),
            other,
        ) && to_me);
        let older = match c {
            Some(x) => m.created_at < x.created_at,
            None => true,
        };
        if is_between && older {
            sel.push(m.duplicate());
        }
        i = i + 1;
    }
    proof {
        assert(msgs@.take(msgs.len() as int) =~= msgs@);
        assert forall|k: int| 0 <= k < sel@.len() implies valid_time(#[trigger] sel@[k].created_at) by {
            assert(sel@.contains(sel@[k]));
            msgs@.lemma_filter_contains_rev(pred, sel@[k]);
        }
    }
    let messages = newest_responses(sel, limit);
    proof {
        history_is_between_the_two(messages@, msgs@, me@, other@, cv, limit as nat);
    }
    let read_markers = mark_read_from(msgs, reads, me, other, now);
    HistoryPage { messages, read_markers }
}


// ── Search ──

/// The full-text query of a search: the text trimmed of white space, which
/// must not be empty.
pub fn search_terms(q: &str) -> (r: Result<String, AppError>)
    ensures
        text::is_blank(q@) ==> fails_validation(r, "search query must not be empty"@),
        r is Ok <==> !text::is_blank(q@),
        r matches Ok(t) ==> t@ == text::trimmed(q@),
{
    if text::blank(q) {
        return Err(AppError::Validation(String::from_str("search query must not be empty")));
    }
    Ok(text::trim(q))
}

/// A message that `me` sent or received directly.
pub open spec fn visible_to(m: message::Model, me: Seq<char>) -> bool {
    m.from_agent@ == me || text::opt_text(m.to_agent) == Some(me)
}

/// The test that a message has the id and is visible to `me`.
pub open spec fn hit_test(me: Seq<char>, id: Seq<char>) -> spec_fn(message::Model) -> bool {
    |m: message::Model| m.id@ == id && visible_to(m, me)
}

/// The message found for a search hit: the first message with the id that `me` may see.
pub open spec fn hit_for(msgs: Seq<message::Model>, me: Seq<char>, id: Seq<char>) -> Option<message::Model> {
    let f = msgs.filter(hit_test(me, id));
    if f.len() > 0 {
        Some(f[0])
    } else {
        None
    }
}

/// The messages for the hits, in the order of the hits.
pub open spec fn search_hits(ids: Seq<Seq<char>>, msgs: Seq<message::Model>, me: Seq<char>) -> Seq<
    message::Model,
>
    decreases ids.len(),
{
    if ids.len() == 0 {
        Seq::empty()
    } else {
        let prev = search_hits(ids.drop_last(), msgs, me);
        match hit_for(msgs, me, ids.last()) {
            Some(m) => prev.push(m),
            None => prev,
        }
    }
}

/// The ids as plain texts.
pub open spec fn id_texts(ids: Seq<String>) -> Seq<Seq<char>> {
    ids.map_values(|s: String| s@)
}

/// Every message a search finds for `me` was sent by `me` or addressed
/// directly to `me`.
pub proof fn search_hits_are_own(ids: Seq<Seq<char>>, msgs: Seq<message::Model>, me: Seq<char>)
    ensures
        forall|k: int|
            0 <= k < search_hits(ids, msgs, me).len() ==> (#[trigger] search_hits(ids, msgs, me)[k]).from_agent@
                == me || text::opt_text(search_hits(ids, msgs, me)[k].to_agent) == Some(me),
    decreases ids.len(),
{
    broadcast use vstd::seq_lib::group_filter_ensures;
    if ids.len() > 0 {
        search_hits_are_own(ids.drop_last(), msgs, me);
        let f = msgs.filter(hit_test(me, ids.last()));
        if f.len() > 0 {
            assert(hit_test(me, ids.last())(f[0]));
        }
    }
}

/// A search shows `me` only messages that `me` sent or that were addressed
/// directly to `me`: never another agent's direct or channel message.
pub proof fn search_shows_only_own_messages(
    r: Seq<MessageResponse>,
    ids: Seq<Seq<char>>,
    msgs: Seq<message::Model>,
    me: Seq<char>,
)
    requires
        r.len() == search_hits(ids, msgs, me).len(),
        forall|k: int| 0 <= k < r.len() ==> shows_message(search_hits(ids, msgs, me)[k], #[trigger] r[k]),
    ensures
        forall|k: int|
            0 <= k < r.len() ==> (#[trigger] r[k]).from_agent@ == me || text::opt_text(r[k].to_agent)
                == Some(me),
{
    search_hits_are_own(ids, msgs, me);
    assert forall|k: int| 0 <= k < r.len() implies (#[trigger] r[k]).from_agent@ == me
        || text::opt_text(r[k].to_agent) == Some(me) by {
        assert(shows_message(search_hits(ids, msgs, me)[k], r[k]));
    }
}

/// Find the first message with the id that `me` may see.
fn find_hit(msgs: &Vec<message::Model>, me: &str, id: &str) -> (r: Option<message::Model>)
    ensures
        r == hit_for(msgs@, me@, id@),
        r matches Some(m) ==> m.id@ == id@ && (m.from_agent@ == me@ || text::opt_text(m.to_agent)
            == Some(me@)),
{
    broadcast use vstd::seq_lib::group_filter_ensures;
    let mut i: usize = 0;
    while i < msgs.len()
        invariant
            i <= msgs.len(),
            msgs@.take(i as int).filter(hit_test(me@, id@)).len() == 0,
        decreases msgs.len() - i,
    {
        proof {
            assert(msgs@.take(i + 1) =~= msgs@.take(i as int).push(msgs@[i as int]));
            msgs@.take(i as int).lemma_filter_push(msgs@[i as int], hit_test(me@, id@));
        }
        let m = &msgs[i];
        let to_me = match &m.to_agent {
            Some(t) => text::text_eq(t.as_str(), me),
            None => false,
        };
        if text::text_eq(m.id.as_str(), id) && (text::text_eq(m.from_agent.as_str(), me) || to_me) {
            proof {
                let rest = msgs@.subrange(i + 1, msgs@.len() as int);
                assert(msgs@ =~= msgs@.take(i + 1) + rest);
                Seq::filter_distributes_over_add(msgs@.take(i + 1), rest, hit_test(me@, id@));
                assert(msgs@.take(i + 1).filter(hit_test(me@, id@)) =~= seq![msgs@[i as int]]);
            }
            return Some(m.duplicate());
        }
        i = i + 1;
    }
    proof {
        assert(msgs@.take(msgs.len() as int) =~= msgs@);
    }
    None
}

/// Search results for `me`: `fts_ids` are the ids that full-text search
/// ranked, best first; `msgs` the stored messages. Each hit that `me` sent or
/// received is shown, in the order of the ranking.
pub fn search(me: &str, fts_ids: &Vec<String>, msgs: &Vec<message::Model>) -> (r: Vec<
    MessageResponse,
>)
    requires
        forall|i: int| 0 <= i < msgs.len() ==> valid_time(#[trigger] msgs@[i].created_at),
    ensures
        r@.len() == search_hits(id_texts(fts_ids@), msgs@, me@).len(),
        forall|k: int|
            0 <= k < r@.len() ==> shows_message(
                search_hits(id_texts(fts_ids@), msgs@, me@)[k],
                #[trigger] r@[k],
            ),
        forall|k: int|
            0 <= k < r@.len() ==> (#[trigger] r@[k]).from_agent@ == me@ || text::opt_text(r@[k].to_agent)
                == Some(me@),
{
    broadcast use vstd::seq_lib::group_filter_ensures;
    let mut out: Vec<MessageResponse> = Vec::new();
    let mut i: usize = 0;
    while i < fts_ids.len()
        invariant
            i <= fts_ids.len(),
            forall|k: int| 0 <= k < msgs.len() ==> valid_time(#[trigger] msgs@[k].created_at),
            out@.len() == search_hits(id_texts(fts_ids@.take(i as int)), msgs@, me@).len(),
            forall|k: int|
                0 <= k < out@.len() ==> shows_message(
                    search_hits(id_texts(fts_ids@.take(i as int)), msgs@, me@)[k],
                    #[trigger] out@[k],
                ),
        decreases fts_ids.len() - i,
    {
        proof {
            assert(id_texts(fts_ids@.take(i + 1)).drop_last() =~= id_texts(fts_ids@.take(i as int)));
            assert(id_texts(fts_ids@.take(i + 1)).last() == fts_ids@[i as int]@);
        }
        match find_hit(msgs, me, fts_ids[i].as_str()) {
            Some(m) => {
                proof {
                    let f = msgs@.filter(hit_test(me@, fts_ids@[i as int]@));
                    assert(f.contains(f[0]));
                    msgs@.lemma_filter_contains_rev(hit_test(me@, fts_ids@[i as int]@), f[0]);
                }
                out.push(to_response(&m));
            },
            None => {},
        }
        i = i + 1;
    }
    proof {
        assert(fts_ids@.take(fts_ids.len() as int) =~= fts_ids@);
        search_shows_only_own_messages(out@, id_texts(fts_ids@), msgs@, me@);
    }
    out
}

} // verus!
