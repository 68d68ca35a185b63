//! Real-time push: the registry of open WebSocket connections per agent.
//!
//! An agent may hold several connections (devices, windows). A message for an
//! agent goes to each of its open connections.

use vstd::prelude::*;
use crate::entity::agent;
use crate::error::{AppError, fails_forbidden, fails_unauthorized};
use crate::auth::token::{self, JwtClaims};
use crate::text;
use tokio::sync::mpsc::{UnboundedReceiver, UnboundedSender};

verus! {

#[verifier::external_type_specification]
#[verifier::external_body]
#[verifier::reject_recursive_types(T)]
pub struct ExUnboundedSender<T>(UnboundedSender<T>);

#[verifier::external_type_specification]
#[verifier::external_body]
#[verifier::reject_recursive_types(T)]
pub struct ExUnboundedReceiver<T>(UnboundedReceiver<T>);

/// Opens a channel with `tokio::sync::mpsc::unbounded_channel`: the sending
/// half, kept by the registry, and the receiving half, which feeds a
/// connection. Nothing is claimed of them.
#[verifier::external_body]
fn open_channel() -> (UnboundedSender<String>, UnboundedReceiver<String>) {
    tokio::sync::mpsc::unbounded_channel()
}

/// Sends with `UnboundedSender::send`, which fails when the receiving half is
/// gone. Whether it is gone depends on the connection, so nothing is claimed
/// of the answer.
#[verifier::external_body]
fn send_text(tx: &UnboundedSender<String>, msg: &str) -> bool {
    tx.send(msg.to_string()).is_ok()
}

/// Asks `UnboundedSender::is_closed` whether the receiving half is gone.
/// That depends on the connection, so nothing is claimed of the answer.
#[verifier::external_body]
fn sender_closed(tx: &UnboundedSender<String>) -> bool {
    tx.is_closed()
}

/// No agent appears twice among the entries, and each has a connection.
pub open spec fn entries_ok(e: Seq<(String, Vec<UnboundedSender<String>>)>) -> bool {
    &&& keys_of(e).no_duplicates()
    &&& forall|i: int| 0 <= i < e.len() ==> (#[trigger] e[i]).1@.len() > 0
}

/// With no agent twice, the senders of an agent are those of its entry.
proof fn senders_in_at(e: Seq<(String, Vec<UnboundedSender<String>>)>, q: int)
    requires
        keys_of(e).no_duplicates(),
        0 <= q < e.len(),
    ensures
        senders_in(e, e[q].0@) == e[q].1@,
    decreases e.len(),
{
    if q < e.len() - 1 {
        assert(keys_of(e)[q] != keys_of(e)[e.len() - 1]);
        let d = e.drop_last();
        assert(keys_of(d) =~= keys_of(e).drop_last());
        assert(d[q] == e[q]);
        senders_in_at(d, q);
    }
}

/// An agent without entry has no connection.
proof fn senders_in_absent(e: Seq<(String, Vec<UnboundedSender<String>>)>, k: Seq<char>)
    requires
        forall|q: int| 0 <= q < e.len() ==> (#[trigger] e[q]).0@ != k,
    ensures
        senders_in(e, k)  == Seq::<UnboundedSender<String>>::empty(),
        !keys_of(e).contains(k),
    decreases e.len(),
{
    if e.len() > 0 {
        let d = e.drop_last();
        assert forall|q: int| 0 <= q < d.len() implies (#[trigger] d[q]).0@ != k by {
            assert(d[q] == e[q]);
        }
        senders_in_absent(d, k);
    }
    if keys_of(e).contains(k) {
        let q = choose|q: int| 0 <= q < keys_of(e).len() && keys_of(e)[q] == k;
        assert(e[q].0@ == k);
    }
}

/// The senders of any agent, from the entries.
proof fn senders_in_any(e: Seq<(String, Vec<UnboundedSender<String>>)>, k: Seq<char>)
    requires
        keys_of(e).no_duplicates(),
    ensures
        (exists|q: int| 0 <= q < e.len() && (#[trigger] e[q]).0@ == k) ==> forall|q: int|
            0 <= q < e.len() && (#[trigger] e[q]).0@ == k ==> senders_in(e, k) == e[q].1@,
        (forall|q: int| 0 <= q < e.len() ==> (#[trigger] e[q]).0@ != k) ==> senders_in(e, k) == Seq::<UnboundedSender<String>>::empty(),
        keys_of(e).contains(k) <==> exists|q: int| 0 <= q < e.len() && (#[trigger] e[q]).0@ == k,
{
    if forall|q: int| 0 <= q < e.len() ==> (#[trigger] e[q]).0@ != k {
        senders_in_absent(e, k);
    } else {
        assert forall|q: int| 0 <= q < e.len() && (#[trigger] e[q]).0@ == k implies senders_in(e, k)
            == e[q].1@ by {
            senders_in_at(e, q);
        }
        let q = choose|q: int| 0 <= q < e.len() && (#[trigger] e[q]).0@ == k;
        assert(keys_of(e)[q] == k);
    }
}

/// Replacing the entry of an agent by one for the same agent.
proof fn registry_update_lemma(
    e: Seq<(String, Vec<UnboundedSender<String>>)>,
    j: int,
    x: (String, Vec<UnboundedSender<String>>),
)
    requires
        entries_ok(e),
        0 <= j < e.len(),
        x.0@ == e[j].0@,
        x.1@.len() > 0,
    ensures
        entries_ok(e.update(j, x)),
        keys_of(e.update(j, x)) == keys_of(e),
        forall|k: Seq<char>|
            #[trigger] senders_in(e.update(j, x), k) == if k == x.0@ {
                x.1@
            } else {
                senders_in(e, k)
            },
{
    let u = e.update(j, x);
    assert(keys_of(u) =~= keys_of(e));
    assert forall|k: Seq<char>| #[trigger] senders_in(u, k) == if k == x.0@ {
        x.1@
    } else {
        senders_in(e, k)
    } by {
        senders_in_any(u, k);
        senders_in_any(e, k);
        if k == x.0@ {
            assert(u[j].0@ == k);
        } else if exists|q: int| 0 <= q < e.len() && (#[trigger] e[q]).0@ == k {
            let q = choose|q: int| 0 <= q < e.len() && (#[trigger] e[q]).0@ == k;
            assert(u[q] == e[q]);
        } else {
            assert forall|q: int| 0 <= q < u.len() implies (#[trigger] u[q]).0@ != k by {
                if q != j {
                    assert(u[q] == e[q]);
                }
            }
        }
    }
}

/// Adding the entry of an agent that had none.
proof fn registry_push_lemma(
    e: Seq<(String, Vec<UnboundedSender<String>>)>,
    x: (String, Vec<UnboundedSender<String>>),
)
    requires
        entries_ok(e),
        forall|q: int| 0 <= q < e.len() ==> (#[trigger] e[q]).0@ != x.0@,
        x.1@.len() > 0,
    ensures
        entries_ok(e.push(x)),
        keys_of(e.push(x)) == keys_of(e).push(x.0@),
        forall|k: Seq<char>|
            #[trigger] senders_in(e.push(x), k) == if k == x.0@ {
                x.1@
            } else {
                senders_in(e, k)
            },
{
    let u = e.push(x);
    assert(keys_of(u) =~= keys_of(e).push(x.0@));
    assert(u.drop_last() =~= e);
    assert(keys_of(u).no_duplicates()) by {
        assert forall|a: int, b: int| 0 <= a < keys_of(u).len() && 0 <= b < keys_of(u).len() && a != b
            implies keys_of(u)[a] != keys_of(u)[b] by {
            if a < e.len() && b < e.len() {
                assert(keys_of(u)[a] == keys_of(e)[a]);
                assert(keys_of(u)[b] == keys_of(e)[b]);
            } else if a < e.len() {
                assert(e[a].0@ != x.0@);
            } else {
                assert(e[b].0@ != x.0@);
            }
        }
    }
    assert forall|i: int| 0 <= i < u.len() implies (#[trigger] u[i]).1@.len() > 0 by {
        if i < e.len() {
            assert(u[i] == e[i]);
        }
    }
}

/// Taking out the entry of an agent.
proof fn registry_remove_lemma(e: Seq<(String, Vec<UnboundedSender<String>>)>, j: int)
    requires
        entries_ok(e),
        0 <= j < e.len(),
    ensures
        entries_ok(e.remove(j)),
        !keys_of(e.remove(j)).contains(e[j].0@),
        forall|k: Seq<char>| keys_of(e.remove(j)).contains(k) ==> keys_of(e).contains(k),
        forall|k: Seq<char>| keys_of(e).contains(k) && k != e[j].0@ ==> keys_of(e.remove(j)).contains(k),
        forall|k: Seq<char>|
            #[trigger] senders_in(e.remove(j), k) == if k == e[j].0@ {
                Seq::<UnboundedSender<String>>::empty()
            } else {
                senders_in(e, k)
            },
{
    let u = e.remove(j);
    let kj = e[j].0@;
    assert(u.len() == e.len() - 1);
    assert forall|q: int| 0 <= q < u.len() implies #[trigger] u[q] == (if q < j {
        e[q]
    } else {
        e[q + 1]
    }) by {}
    assert(keys_of(u).no_duplicates()) by {
        assert forall|a: int, b: int| 0 <= a < keys_of(u).len() && 0 <= b < keys_of(u).len() && a != b
            implies keys_of(u)[a] != keys_of(u)[b] by {
            let ea = if a < j { a } else { a + 1 };
            let eb = if b < j { b } else { b + 1 };
            assert(keys_of(u)[a] == keys_of(e)[ea]);
            assert(keys_of(u)[b] == keys_of(e)[eb]);
        }
    }
    assert forall|i: int| 0 <= i < u.len() implies (#[trigger] u[i]).1@.len() > 0 by {
        if i < j {
            assert(u[i] == e[i]);
        } else {
            assert(u[i] == e[i + 1]);
        }
    }
    assert forall|q: int| 0 <= q < u.len() implies (#[trigger] u[q]).0@ != kj by {
        let eq = if q < j { q } else { q + 1 };
        assert(u[q] == e[eq]);
        assert(keys_of(e)[eq] != keys_of(e)[j]);
    }
    senders_in_absent(u, kj);
    assert forall|k: Seq<char>| keys_of(u).contains(k) implies keys_of(e).contains(k) by {
        let q = choose|q: int| 0 <= q < keys_of(u).len() && keys_of(u)[q] == k;
        let eq = if q < j { q } else { q + 1 };
        assert(keys_of(e)[eq] == k);
    }
    assert forall|k: Seq<char>| keys_of(e).contains(k) && k != kj implies keys_of(u).contains(k) by {
        let q = choose|q: int| 0 <= q < keys_of(e).len() && keys_of(e)[q] == k;
        let uq = if q < j { q } else { q - 1 };
        assert(keys_of(u)[uq] == k);
    }
    assert forall|k: Seq<char>| #[trigger] senders_in(u, k) == if k == kj {
        Seq::<UnboundedSender<String>>::empty()
    } else {
        senders_in(e, k)
    } by {
        senders_in_any(u, k);
        senders_in_any(e, k);
        if k != kj {
            if exists|q: int| 0 <= q < e.len() && (#[trigger] e[q]).0@ == k {
                let q = choose|q: int| 0 <= q < e.len() && (#[trigger] e[q]).0@ == k;
                let uq = if q < j { q } else { q - 1 };
                assert(u[uq] == e[q]);
            } else {
                assert forall|q: int| 0 <= q < u.len() implies (#[trigger] u[q]).0@ != k by {
                    let eq = if q < j { q } else { q + 1 };
                    assert(u[q] == e[eq]);
                }
            }
        }
    }
}

/// Registry mapping agent_id to the sending halves of its open connections.
pub struct ConnectionRegistry {
    entries: Vec<(String, Vec<UnboundedSender<String>>)>,
}

/// The agent ids of registry entries.
pub open spec fn keys_of(e: Seq<(String, Vec<UnboundedSender<String>>)>) -> Seq<Seq<char>> {
    e.map_values(|x: (String, Vec<UnboundedSender<String>>)| x.0@)
}

/// The sending halves of an agent's connections among registry entries; the
/// last entry of a key counts.
pub open spec fn senders_in(e: Seq<(String, Vec<UnboundedSender<String>>)>, k: Seq<char>) -> Seq<UnboundedSender<String>>
    decreases e.len(),
{
    if e.len() == 0 {
        Seq::<UnboundedSender<String>>::empty()
    } else if e.last().0@ == k {
        e.last().1@
    } else {
        senders_in(e.drop_last(), k)
    }
}

/// An agent is listed exactly when it has a connection.
proof fn listed_iff_nonempty(e: Seq<(String, Vec<UnboundedSender<String>>)>, k: Seq<char>)
    requires
        entries_ok(e),
    ensures
        keys_of(e).contains(k) <==> senders_in(e, k).len() > 0,
{
    senders_in_any(e, k);
    if keys_of(e).contains(k) {
        let q = choose|q: int| 0 <= q < e.len() && (#[trigger] e[q]).0@ == k;
        assert(e[q].1@.len() > 0);
    }
}

/// How many of a sequence of send outcomes succeeded.
pub open spec fn count_true(o: Seq<bool>) -> nat
    decreases o.len(),
{
    if o.len() == 0 {
        0
    } else {
        count_true(o.drop_last()) + if o.last() {
            1nat
        } else {
            0nat
        }
    }
}

/// No more sends succeed than were made.
proof fn count_true_bound(o: Seq<bool>)
    ensures
        count_true(o) <= o.len(),
    decreases o.len(),
{
    if o.len() > 0 {
        count_true_bound(o.drop_last());
    }
}

/// The senders of `s` whose flag in `closed` (by position) is false, in order.
pub open spec fn keep_open(s: Seq<UnboundedSender<String>>, closed: Seq<bool>) -> Seq<UnboundedSender<String>>
    decreases s.len(),
{
    if s.len() == 0 {
        Seq::<UnboundedSender<String>>::empty()
    } else {
        keep_open(s.drop_last(), closed) + if closed[s.len() - 1] {
            Seq::<UnboundedSender<String>>::empty()
        } else {
            seq![s.last()]
        }
    }
}

/// Keeping the open senders never adds one.
proof fn keep_open_bound(s: Seq<UnboundedSender<String>>, closed: Seq<bool>)
    ensures
        keep_open(s, closed).len() <= s.len(),
    decreases s.len(),
{
    if s.len() > 0 {
        keep_open_bound(s.drop_last(), closed);
    }
}

/// The number of sends that succeeded, from their outcomes.
pub fn delivered_count(outcomes: &Vec<bool>) -> (r: usize)
    ensures
        r == count_true(outcomes@),
{
    let mut n: usize = 0;
    let mut i: usize = 0;
    while i < outcomes.len()
        invariant
            i <= outcomes.len(),
            n == count_true(outcomes@.take(i as int)),
            n <= i,
        decreases outcomes.len() - i,
    {
        proof {
            assert(outcomes@.take(i + 1).drop_last() =~= outcomes@.take(i as int));
        }
        if outcomes[i] {
            n = n + 1;
        }
        i = i + 1;
    }
    proof {
        assert(outcomes@.take(outcomes.len() as int) =~= outcomes@);
    }
    n
}

/// The senders whose receiving half is still open, given a closed flag for
/// each, in order.
pub fn kept_senders(senders: Vec<UnboundedSender<String>>, closed: &Vec<bool>) -> (r: Vec<
    UnboundedSender<String>,
>)
    requires
        closed.len() == senders.len(),
    ensures
        r@ == keep_open(senders@, closed@),
{
    let ghost s = senders@;
    let mut rest = senders;
    let mut kept: Vec<UnboundedSender<String>> = Vec::new();
    let mut i: usize = 0;
    while rest.len() > 0
        invariant
            closed@.len() == s.len(),
            i <= s.len(),
            i + rest@.len() == s.len(),
            s.len() <= usize::MAX,
            rest@ == s.skip(i as int),
            kept@ == keep_open(s.take(i as int), closed@),
        decreases rest.len(),
    {
        let tx = rest.remove(0);
        proof {
            assert(s.take(i + 1).drop_last() =~= s.take(i as int));
            assert(s.take(i + 1).last() == tx);
            assert(s.skip(i as int).remove(0) =~= s.skip(i + 1));
        }
        if !closed[i] {
            kept.push(tx);
        }
        proof {
            assert(kept@ =~= keep_open(s.take(i + 1), closed@));
        }
        i = i + 1;
    }
    proof {
        assert(s.take(i as int) =~= s);
    }
    kept
}

/// The sum of the successful sends to each listed member.
pub open spec fn sum_delivered(per: Seq<Seq<bool>>) -> int
    decreases per.len(),
{
    if per.len() == 0 {
        0
    } else {
        sum_delivered(per.drop_last()) + count_true(per.last())
    }
}

/// A count as a `usize`, held at `usize::MAX` when it is larger.
pub open spec fn saturated(n: int) -> int {
    if n <= usize::MAX {
        n
    } else {
        usize::MAX as int
    }
}

impl ConnectionRegistry {
    /// No agent appears twice, and every agent listed has a connection.
    #[verifier::type_invariant]
    closed spec fn well_formed(self) -> bool {
        entries_ok(self.entries@)
    }

    /// The agents with at least one registered connection.
    pub closed spec fn agents(&self) -> Seq<Seq<char>> {
        keys_of(self.entries@)
    }

    /// The sending halves of an agent's registered connections, oldest first.
    pub closed spec fn senders(&self, agent_id: Seq<char>) -> Seq<UnboundedSender<String>> {
        senders_in(self.entries@, agent_id)
    }

    /// The number of registered connections of an agent.
    pub open spec fn connections(&self, agent_id: Seq<char>) -> nat {
        self.senders(agent_id).len()
    }

    /// An empty registry.
    pub fn new() -> (r: Self)
        ensures
            r.agents().len() == 0,
            forall|k: Seq<char>| r.senders(k) == Seq::<UnboundedSender<String>>::empty(),
    {
        ConnectionRegistry { entries: Vec::new() }
    }

    /// Register a new connection for an agent: its sending half is added
    /// after the agent's others. Returns the receiving half.
    pub fn register(&mut self, agent_id: &str) -> (r: UnboundedReceiver<String>)
        ensures
            final(self).connections(agent_id@) == old(self).connections(agent_id@) + 1,
            final(self).senders(agent_id@).take(old(self).connections(agent_id@) as int) == old(
                self,
            ).senders(agent_id@),
            forall|k: Seq<char>| k != agent_id@ ==> final(self).senders(k) == old(self).senders(k),
            final(self).agents().contains(agent_id@),
            forall|k: Seq<char>| old(self).agents().contains(k) ==> final(self).agents().contains(k),
            forall|k: Seq<char>| final(self).agents().contains(k) ==> old(self).agents().contains(k) || k == agent_id@,
    {
        proof {
            use_type_invariant(&*self);
        }
        let (tx, rx) = open_channel();
        let mut entries: Vec<(String, Vec<UnboundedSender<String>>)> = Vec::new();
        std::mem::swap(&mut entries, &mut self.entries);
        let ghost old_e = entries@;
        let mut j: usize = 0;
        while j < entries.len() && !text::text_eq(entries[j].0.as_str(), agent_id)
            invariant
                entries@ == old_e,
                entries_ok(old_e),
                j <= entries.len(),
                forall|q: int| 0 <= q < j ==> (#[trigger] entries@[q]).0@ != agent_id@,
            decreases entries.len() - j,
        {
            j = j + 1;
        }
        if j < entries.len() {
            let (k, mut senders) = entries.remove(j);
            let ghost before = senders@;
            senders.push(tx);
            entries.insert(j, (k, senders));
            proof {
                assert(entries@ =~= old_e.update(j as int, entries@[j as int]));
                registry_update_lemma(old_e, j as int, entries@[j as int]);
                senders_in_at(old_e, j as int);
                assert(keys_of(entries@)[j as int] == agent_id@);
                assert(entries@[j as int].1@.take(before.len() as int) =~= before);
            }
        } else {
            proof {
                senders_in_absent(old_e, agent_id@);
            }
            let mut senders: Vec<UnboundedSender<String>> = Vec::new();
            senders.push(tx);
            entries.push((agent_id.to_owned(), senders));
            proof {
                registry_push_lemma(old_e, entries@.last());
                assert(entries@ =~= old_e.push(entries@.last()));
                assert(keys_of(entries@)[old_e.len() as int] == agent_id@);
                assert(entries@.last().1@.take(0) =~= Seq::<UnboundedSender<String>>::empty());
                assert forall|k: Seq<char>| keys_of(old_e).contains(k) implies keys_of(entries@).contains(
                    k,
                ) by {
                    let q = choose|q: int| 0 <= q < keys_of(old_e).len() && keys_of(old_e)[q] == k;
                    assert(keys_of(entries@)[q] == k);
                }
            }
        }
        self.entries = entries;
        rx
    }

    /// Remove closed senders for an agent. Called on disconnect. Each of the
    /// agent's senders is asked whether its receiving half is closed; those
    /// that are not stay, in order, and the agent is dropped when none stays.
    pub fn cleanup(&mut self, agent_id: &str)
        ensures
            exists|closed: Seq<bool>|
                closed.len() == old(self).connections(agent_id@) && final(self).senders(agent_id@)
                    == #[trigger] keep_open(old(self).senders(agent_id@), closed),
            final(self).connections(agent_id@) <= old(self).connections(agent_id@),
            forall|k: Seq<char>| k != agent_id@ ==> final(self).senders(k) == old(self).senders(k),
            final(self).agents().contains(agent_id@) <==> final(self).connections(agent_id@) > 0,
            forall|k: Seq<char>| final(self).agents().contains(k) ==> old(self).agents().contains(k),
            forall|k: Seq<char>| old(self).agents().contains(k) && k != agent_id@ ==> final(self).agents().contains(k),
    {
        proof {
            use_type_invariant(&*self);
        }
        let mut entries: Vec<(String, Vec<UnboundedSender<String>>)> = Vec::new();
        std::mem::swap(&mut entries, &mut self.entries);
        let ghost old_e = entries@;
        let ghost mut witness: Seq<bool> = Seq::empty();
        let mut j: usize = 0;
        while j < entries.len() && !text::text_eq(entries[j].0.as_str(), agent_id)
            invariant
                entries@ == old_e,
                entries_ok(old_e),
                j <= entries.len(),
                forall|q: int| 0 <= q < j ==> (#[trigger] entries@[q]).0@ != agent_id@,
            decreases entries.len() - j,
        {
            j = j + 1;
        }
        if j < entries.len() {
            let (k, senders) = entries.remove(j);
            proof {
                senders_in_at(old_e, j as int);
                assert(k@ == agent_id@);
            }
            let mut closed: Vec<bool> = Vec::new();
            let mut i: usize = 0;
            while i < senders.len()
                invariant
                    i <= senders.len(),
                    closed@.len() == i,
                decreases senders.len() - i,
            {
                closed.push(sender_closed(&senders[i]));
                i = i + 1;
            }
            let ghost before = senders@;
            let kept = kept_senders(senders, &closed);
            proof {
                keep_open_bound(before, closed@);
                assert(before == senders_in(old_e, agent_id@));
                assert(kept@ == keep_open(senders_in(old_e, agent_id@), closed@));
                witness = closed@;
            }
            if kept.len() > 0 {
                entries.insert(j, (k, kept));
                proof {
                    assert(entries@ =~= old_e.update(j as int, entries@[j as int]));
                    registry_update_lemma(old_e, j as int, entries@[j as int]);
                    assert(keys_of(entries@)[j as int] == agent_id@);
                }
            } else {
                proof {
                    registry_remove_lemma(old_e, j as int);
                    assert(kept@ =~= Seq::<UnboundedSender<String>>::empty());
                }
            }
        } else {
            proof {
                senders_in_absent(old_e, agent_id@);
                assert(keep_open(senders_in(old_e, agent_id@), Seq::<bool>::empty())
                    =~= Seq::<UnboundedSender<String>>::empty());
            }
        }
        proof {
            listed_iff_nonempty(entries@, agent_id@);
        }
        self.entries = entries;
        assert(self.senders(agent_id@) == keep_open(old(self).senders(agent_id@), witness));
    }

    /// Push a message to all connections of a given agent: one send of
    /// `json_msg` on each of its senders, in order. Returns the number of
    /// sends that succeeded (a send fails when its receiving half is gone).
    pub fn push(&self, agent_id: &str, json_msg: &str) -> (r: usize)
        ensures
            exists|outcomes: Seq<bool>|
                outcomes.len() == self.connections(agent_id@) && r == #[trigger] count_true(outcomes),
            r <= self.connections(agent_id@),
            !self.agents().contains(agent_id@) ==> r == 0,
    {
        proof {
            use_type_invariant(self);
        }
        let mut j: usize = 0;
        while j < self.entries.len()
            invariant
                j <= self.entries.len(),
                entries_ok(self.entries@),
                forall|q: int| 0 <= q < j ==> (#[trigger] self.entries@[q]).0@ != agent_id@,
            decreases self.entries.len() - j,
        {
            if text::text_eq(self.entries[j].0.as_str(), agent_id) {
                let senders = &self.entries[j].1;
                let mut outcomes: Vec<bool> = Vec::new();
                let mut i: usize = 0;
                while i < senders.len()
                    invariant
                        i <= senders.len(),
                        outcomes@.len() == i,
                    decreases senders.len() - i,
                {
                    outcomes.push(send_text(&senders[i], json_msg));
                    i = i + 1;
                }
                proof {
                    senders_in_at(self.entries@, j as int);
                    assert(keys_of(self.entries@)[j as int] == agent_id@);
                    count_true_bound(outcomes@);
                }
                return delivered_count(&outcomes);
            }
            j = j + 1;
        }
        proof {
            senders_in_absent(self.entries@, agent_id@);
            assert(count_true(Seq::<bool>::empty()) == 0);
        }
        0
    }

    /// Which members a channel push reaches: one outcome sequence per listed
    /// member, empty for the excluded sender, one outcome per connection for
    /// every other member.
    pub open spec fn sends_to(&self, ids: Seq<Seq<char>>, exclude: Seq<char>, per: Seq<Seq<bool>>) -> bool {
        &&& per.len() == ids.len()
        &&& forall|i: int|
            0 <= i < ids.len() ==> (#[trigger] per[i]).len() == if ids[i] == exclude {
                0
            } else {
                self.connections(ids[i])
            }
    }

    /// Push a message to all members of a channel (except the sender): each
    /// listed member other than `exclude` is pushed the message once, as
    /// `push` does, and `exclude` is pushed nothing. Returns the total number
    /// of sends that succeeded (held at `usize::MAX`).
    pub fn push_to_channel_members(&self, member_ids: &Vec<String>, exclude: &str, json_msg: &str) -> (r:
        usize)
        ensures
            exists|per: Seq<Seq<bool>>|
                self.sends_to(member_ids@.map_values(|s: String| s@), exclude@, per) && r == saturated(
                    #[trigger] sum_delivered(per),
                ),
            r <= self.reach(member_ids@.map_values(|s: String| s@), exclude@),
    {
        let ghost ids = member_ids@.map_values(|s: String| s@);
        let ghost mut per: Seq<Seq<bool>> = Seq::empty();
        let mut total: usize = 0;
        let mut i: usize = 0;
        while i < member_ids.len()
            invariant
                i <= member_ids.len(),
                ids == member_ids@.map_values(|s: String| s@),
                self.sends_to(ids.take(i as int), exclude@, per),
                total == saturated(sum_delivered(per)),
                total <= self.reach(ids.take(i as int), exclude@),
            decreases member_ids.len() - i,
        {
            proof {
                assert(ids.take(i + 1).drop_last() =~= ids.take(i as int));
                assert(ids.take(i + 1).last() == member_ids@[i as int]@);
            }
            let ghost o: Seq<bool>;
            if !text::text_eq(member_ids[i].as_str(), exclude) {
                let n = self.push(member_ids[i].as_str(), json_msg);
                proof {
                    o = choose|o: Seq<bool>| o.len() == self.connections(ids[i as int]) && n == #[trigger] count_true(o);
                }
                total = if total <= usize::MAX - n {
                    total + n
                } else {
                    usize::MAX
                };
            } else {
                proof {
                    o = Seq::<bool>::empty();
                }
            }
            proof {
                let np = per.push(o);
                assert(np.drop_last() =~= per);
                assert(sum_delivered(np) == sum_delivered(per) + count_true(o));
                assert forall|q: int| 0 <= q < ids.take(i + 1).len() implies (#[trigger] np[q]).len()
                    == if ids.take(i + 1)[q] == exclude@ {
                    0
                } else {
                    self.connections(ids.take(i + 1)[q])
                } by {
                    if q < i {
                        assert(np[q] == per[q]);
                        assert(ids.take(i + 1)[q] == ids.take(i as int)[q]);
                    }
                }
                per = np;
            }
            i = i + 1;
        }
        proof {
            assert(ids.take(member_ids.len() as int) =~= ids);
        }
        total
    }

    /// The number of connections of the agents listed, the excluded agent
    /// aside (an agent listed twice counts twice).
    pub closed spec fn reach(&self, ids: Seq<Seq<char>>, exclude: Seq<char>) -> nat
        decreases ids.len(),
    {
        if ids.len() == 0 {
            0
        } else {
            self.reach(ids.drop_last(), exclude) + if ids.last() == exclude {
                0
            } else {
                self.connections(ids.last())
            }
        }
    }

    /// Get the number of online agents (for testing/monitoring).
    pub fn online_count(&self) -> (r: usize)
        ensures
            r == self.agents().len(),
    {
        self.entries.len()
    }
}


// ── WebSocket handshake ──

/// The query of a WebSocket upgrade: the bearer token of the agent.
pub struct WsParams {
    pub token: String,
}

/// The claims of the token a WebSocket upgrade presents; a token that does
/// not verify is refused.
pub fn ws_claims(params: &WsParams, secret: &str) -> (r: Result<JwtClaims, AppError>)
    ensures
        r matches Err(e) ==> fails_unauthorized::<()>(Err(e), "invalid token"@),
        r matches Ok(c) ==> token::verify_jwt_post(params.token@, secret@, Ok::<JwtClaims, String>(c)),
{
    match token::verify_jwt(params.token.as_str(), secret) {
        Ok(c) => Ok(c),
        Err(_) => Err(AppError::Unauthorized(String::from_str("invalid token"))),
    }
}

/// Admit a WebSocket connection of the agent stored under the token's
/// subject, if any: gives the agent's id.
pub fn ws_authorize(agent: Option<agent::Model>) -> (r: Result<String, AppError>)
    ensures
        agent is None ==> fails_unauthorized(r, "invalid token"@),
        (agent matches Some(a) && a.status == agent::AgentStatus::Suspended) ==> fails_forbidden(
            r,
            "agent is suspended"@,
        ),
        r is Ok <==> (agent matches Some(a) && a.status == agent::AgentStatus::Active),
        r matches Ok(id) ==> agent matches Some(a) && id@ == a.id@,
{
    match agent {
        None => Err(AppError::Unauthorized(String::from_str("invalid token"))),
        Some(a) => {
            if a.status == agent::AgentStatus::Suspended {
                Err(AppError::Forbidden(String::from_str("agent is suspended")))
            } else {
                Ok(a.id)
            }
        },
    }
}

} // verus!
