//! Pending challenge nonces, keyed by `"{agent_id}:{credential_id}"`.
//!
//! A challenge is stored when issued and taken out when it is answered, so a
//! nonce answers at most one verification.

use vstd::prelude::*;
use vstd::string::*;
use crate::text;

verus! {

/// A pending challenge nonce and the instant (UTC microseconds) it expires.
pub struct ChallengeEntry {
    pub nonce: String,
    pub expires_at: i64,
}

impl ChallengeEntry {
    /// The nonce and expiry of the entry.
    pub open spec fn view_pair(&self) -> (Seq<char>, i64) {
        (self.nonce@, self.expires_at)
    }

    /// A field-by-field copy.
    pub fn duplicate(&self) -> (r: Self)
        ensures
            r.view_pair() == self.view_pair(),
    {
        ChallengeEntry { nonce: self.nonce.clone(), expires_at: self.expires_at }
    }
}

/// The key under which the challenge of an agent's credential is stored.
pub open spec fn key_of(agent_id: Seq<char>, credential_id: Seq<char>) -> Seq<char> {
    agent_id + ":"@ + credential_id
}

/// Build the store key `"{agent_id}:{credential_id}"`.
pub fn challenge_key(agent_id: &str, credential_id: &str) -> (r: String)
    ensures
        r@ == key_of(agent_id@, credential_id@),
{
    proof {
        reveal_strlit(":");
    }
    text::concat3(agent_id, ":", credential_id)
}

/// The entry stored last under a key among `(key, entry)` pairs.
pub open spec fn lookup(s: Seq<(Seq<char>, (Seq<char>, i64))>, k: Seq<char>) -> Option<
    (Seq<char>, i64),
>
    decreases s.len(),
{
    if s.len() == 0 {
        None
    } else if s.last().0 == k {
        Some(s.last().1)
    } else {
        lookup(s.drop_last(), k)
    }
}

proof fn lookup_push(s: Seq<(Seq<char>, (Seq<char>, i64))>, x: (Seq<char>, (Seq<char>, i64)), k: Seq<char>)
    ensures
        lookup(s.push(x), k) == (if x.0 == k {
            Some(x.1)
        } else {
            lookup(s, k)
        }),
{
    assert(s.push(x).drop_last() =~= s);
}

/// Stored pairs as plain values.
pub open spec fn pairs_of(v: Seq<(String, ChallengeEntry)>) -> Seq<(Seq<char>, (Seq<char>, i64))> {
    v.map_values(|e: (String, ChallengeEntry)| (e.0@, e.1.view_pair()))
}

/// The in-memory store of pending challenges.
pub struct ChallengeStore {
    entries: Vec<(String, ChallengeEntry)>,
}

impl ChallengeStore {
    /// The stored pairs, as plain values.
    pub closed spec fn pairs(&self) -> Seq<(Seq<char>, (Seq<char>, i64))> {
        pairs_of(self.entries@)
    }

    /// The pending challenges: key to (nonce, expiry).
    pub closed spec fn view(&self) -> Map<Seq<char>, (Seq<char>, i64)> {
        Map::new(|k: Seq<char>| lookup(self.pairs(), k) is Some, |k: Seq<char>| lookup(self.pairs(), k)->0)
    }

    /// An empty store.
    pub fn new() -> (r: Self)
        ensures
            r.view() == Map::<Seq<char>, (Seq<char>, i64)>::empty(),
    {
        let r = ChallengeStore { entries: Vec::new() };
        assert(r.view() =~= Map::<Seq<char>, (Seq<char>, i64)>::empty());
        r
    }

    /// Take out every entry under `key` and give back the one stored last.
    pub fn remove(&mut self, key: &str) -> (r: Option<ChallengeEntry>)
        ensures
            final(self).view() == old(self).view().remove(key@),
            r matches Some(e) ==> old(self).view().get(key@) == Some(e.view_pair()),
            r is None ==> !old(self).view().contains_key(key@),
    {
        let mut old_entries: Vec<(String, ChallengeEntry)> = Vec::new();
        std::mem::swap(&mut old_entries, &mut self.entries);
        let ghost olds = pairs_of(old_entries@);
        let mut kept: Vec<(String, ChallengeEntry)> = Vec::new();
        let mut found: Option<ChallengeEntry> = None;
        let n = old_entries.len();
        let mut i: usize = 0;
        while i < n
            invariant
                n == old_entries@.len(),
                olds == pairs_of(old_entries@),
                i <= n,
                forall|k: Seq<char>|
                    k != key@ ==> #[trigger] lookup(
                        pairs_of(kept@),
                        k,
                    ) == lookup(olds.take(i as int), k),
                lookup(pairs_of(kept@), key@)
                    is None,
                match found {
                    Some(e) => lookup(olds.take(i as int), key@) == Some(e.view_pair()),
                    None => lookup(olds.take(i as int), key@) is None,
                },
            decreases n - i,
        {
            let (k, e) = &old_entries[i];
            let ghost before = pairs_of(kept@);
            proof {
                assert(olds.take(i + 1) =~= olds.take(i as int).push(olds[i as int]));
                assert forall|k2: Seq<char>| true implies lookup(olds.take(i + 1), k2) == (if olds[i as int].0 == k2 {
                    Some(olds[i as int].1)
                } else {
                    lookup(olds.take(i as int), k2)
                }) by {
                    lookup_push(olds.take(i as int), olds[i as int], k2);
                }
            }
            if text::text_eq(k.as_str(), key) {
                found = Some(e.duplicate());
            } else {
                kept.push((k.clone(), e.duplicate()));
                proof {
                    let after = pairs_of(kept@);
                    assert(after =~= before.push(olds[i as int]));
                    assert forall|k2: Seq<char>| true implies lookup(after, k2) == (if olds[i as int].0 == k2 {
                        Some(olds[i as int].1)
                    } else {
                        lookup(before, k2)
                    }) by {
                        lookup_push(before, olds[i as int], k2);
                    }
                }
            }
            i = i + 1;
        }
        proof {
            assert(olds.take(n as int) =~= olds);
        }
        self.entries = kept;
        proof {
            assert(old(self).pairs() == olds);
            assert(self.view() =~= old(self).view().remove(key@));
        }
        found
    }

    /// Store `entry` under `key`, in place of what was there.
    pub fn insert(&mut self, key: String, entry: ChallengeEntry)
        ensures
            final(self).view() == old(self).view().insert(key@, entry.view_pair()),
    {
        let _ = self.remove(key.as_str());
        let ghost mid = self.view();
        let ghost before = self.pairs();
        let ghost x = (key@, entry.view_pair());
        self.entries.push((key, entry));
        proof {
            assert(self.pairs() =~= before.push(x));
            assert forall|k2: Seq<char>| true implies lookup(self.pairs(), k2) == (if x.0 == k2 {
                Some(x.1)
            } else {
                lookup(before, k2)
            }) by {
                lookup_push(before, x, k2);
            }
            assert forall|k2: Seq<char>| true implies #[trigger] self.view().get(k2) == old(self).view().insert(
                key@,
                x.1,
            ).get(k2) by {
                assert(mid.get(k2) == lookup(before, k2));
                assert(self.view().get(k2) == lookup(self.pairs(), k2));
            }
            let target = old(self).view().insert(key@, x.1);
            assert forall|k2: Seq<char>| true implies (#[trigger] self.view().dom().contains(k2)
                == target.dom().contains(k2)) && (self.view().dom().contains(k2) ==> self.view()[k2]
                == target[k2]) by {
                assert(self.view().get(k2) == target.get(k2));
            }
            assert(self.view() =~= target);
        }
    }
}

} // verus!
