//! Reaction overlay: who reacted with which emoji to which message.
//!
//! Reactions are keyed by message identity, independent of which room's
//! timeline currently holds the message.  The store aggregates by event id
//! and emoji, and tracks the distinct set of reacting users, so recording the
//! same (event, emoji, user) triple twice is a no-op.
//!
//! Abstractly the store is the set of recorded (event id, emoji, user id)
//! triples, given by [`Reactions::as_set`].

use vstd::prelude::*;

verus! {

/// The users who reacted with `emoji` to the message `event_id`.
#[derive(Debug, PartialEq, Eq)]
pub struct ReactionEntry {
    pub event_id: String,
    pub emoji: String,
    pub users: Vec<String>,
}

/// All recorded reactions, aggregated by (event id, emoji).
#[derive(Debug, PartialEq, Eq)]
pub struct Reactions {
    pub entries: Vec<ReactionEntry>,
}

/// The users of one entry are distinct.
pub open spec fn entry_wf(e: ReactionEntry) -> bool {
    forall|a: int, b: int|
        0 <= a < b < e.users@.len() ==> (#[trigger] e.users@[a])@ != (#[trigger] e.users@[b])@
}

impl Reactions {
    /// Entries are keyed by distinct (event id, emoji) pairs, and each entry
    /// holds distinct users.
    pub open spec fn wf(&self) -> bool {
        &&& forall|i: int| 0 <= i < self.entries@.len() ==> entry_wf(#[trigger] self.entries@[i])
        &&& forall|i: int, j: int|
            0 <= i < j < self.entries@.len() ==> !((#[trigger] self.entries@[i]).event_id@ == (
            #[trigger] self.entries@[j]).event_id@ && self.entries@[i].emoji@
                == self.entries@[j].emoji@)
    }

    /// Whether the triple (event id `e`, emoji `em`, user `u`) is recorded.
    pub open spec fn contains_triple(&self, e: Seq<char>, em: Seq<char>, u: Seq<char>) -> bool {
        exists|i: int, j: int|
            #![trigger self.entries@[i].users@[j]]
            {
                &&& 0 <= i < self.entries@.len()
                &&& 0 <= j < self.entries@[i].users@.len()
                &&& self.entries@[i].event_id@ == e
                &&& self.entries@[i].emoji@ == em
                &&& self.entries@[i].users@[j]@ == u
            }
    }

    /// The recorded triples, as a set.
    pub open spec fn as_set(&self) -> Set<(Seq<char>, Seq<char>, Seq<char>)> {
        Set::new(|t: (Seq<char>, Seq<char>, Seq<char>)| self.contains_triple(t.0, t.1, t.2))
    }

    pub fn new() -> (r: Reactions)
        ensures
            r.wf(),
            r.as_set() == Set::<(Seq<char>, Seq<char>, Seq<char>)>::empty(),
    {
        let r = Reactions { entries: Vec::new() };
        proof {
            assert(r.as_set() =~= Set::<(Seq<char>, Seq<char>, Seq<char>)>::empty());
        }
        r
    }

    /// Record that `user_id` reacted with `emoji` to the message `event_id`.
    /// Always succeeds; recording an already-recorded triple leaves the store
    /// untouched.
    pub fn record_reaction(&mut self, event_id: String, emoji: String, user_id: String)
        requires
            old(self).wf(),
        ensures
            final(self).wf(),
            final(self).as_set() == old(self).as_set().insert((event_id@, emoji@, user_id@)),
            old(self).contains_triple(event_id@, emoji@, user_id@) ==> *final(self) == *old(self),
    {
        let ghost t = (event_id@, emoji@, user_id@);
        let n = self.entries.len();
        let mut i: usize = 0;
        while i < n
            invariant
                old(self).wf(),
                *self == *old(self),
                t == (event_id@, emoji@, user_id@),
                n == self.entries@.len(),
                i <= n,
                forall|k: int|
                    0 <= k < i ==> !((#[trigger] self.entries@[k]).event_id@ == event_id@
                        && self.entries@[k].emoji@ == emoji@),
            decreases n - i,
        {
            if self.entries[i].event_id == event_id && self.entries[i].emoji == emoji {
                let m = self.entries[i].users.len();
                let mut j: usize = 0;
                while j < m
                    invariant
                        old(self).wf(),
                        *self == *old(self),
                        t == (event_id@, emoji@, user_id@),
                        i < self.entries@.len(),
                        m == self.entries@[i as int].users@.len(),
                        j <= m,
                        self.entries@[i as int].event_id@ == event_id@,
                        self.entries@[i as int].emoji@ == emoji@,
                        forall|k: int|
                            0 <= k < j ==> (#[trigger] self.entries@[i as int].users@[k])@
                                != user_id@,
                    decreases m - j,
                {
                    if self.entries[i].users[j] == user_id {
                        proof {
                            assert(old(self).contains_triple(t.0, t.1, t.2));
                            assert(old(self).as_set().contains(t));
                            assert(self.as_set() =~= old(self).as_set().insert(t));
                        }
                        return ;
                    }
                    j += 1;
                }
                // the (event id, emoji) entry exists but this user is new
                let ghost prev = *self;
                self.entries[i].users.push(user_id);
                proof {
                    lemma_user_added(prev, *self, i as int, t);
                }
                return ;
            }
            i += 1;
        }
        // no entry for this (event id, emoji) pair yet
        let ghost prev = *self;
        let mut users: Vec<String> = Vec::new();
        users.push(user_id);
        self.entries.push(ReactionEntry { event_id, emoji, users });
        proof {
            lemma_entry_added(prev, *self, t);
        }
    }
}

/// Appending one new user to the users of entry `i` (whose key matches the
/// triple `t`, and whose users did not yet include `t`'s user) inserts
/// exactly `t` into the abstract set and preserves well-formedness.
proof fn lemma_user_added(
    prev: Reactions,
    cur: Reactions,
    i: int,
    t: (Seq<char>, Seq<char>, Seq<char>),
)
    requires
        prev.wf(),
        0 <= i < prev.entries@.len(),
        prev.entries@[i].event_id@ == t.0,
        prev.entries@[i].emoji@ == t.1,
        forall|k: int|
            0 <= k < prev.entries@[i].users@.len() ==> (#[trigger] prev.entries@[i].users@[k])@
                != t.2,
        cur.entries@.len() == prev.entries@.len(),
        forall|k: int|
            0 <= k < prev.entries@.len() && k != i ==> #[trigger] cur.entries@[k]
                == prev.entries@[k],
        cur.entries@[i].event_id == prev.entries@[i].event_id,
        cur.entries@[i].emoji == prev.entries@[i].emoji,
        cur.entries@[i].users@.len() == prev.entries@[i].users@.len() + 1,
        forall|k: int|
            0 <= k < prev.entries@[i].users@.len() ==> #[trigger] cur.entries@[i].users@[k]
                == prev.entries@[i].users@[k],
        cur.entries@[i].users@.last()@ == t.2,
    ensures
        cur.wf(),
        cur.as_set() == prev.as_set().insert(t),
{
    let plen = prev.entries@[i].users@.len() as int;
    // well-formedness
    assert forall|k: int| 0 <= k < cur.entries@.len() implies entry_wf(
        #[trigger] cur.entries@[k],
    ) by {
        if k == i {
            assert forall|a: int, b: int|
                0 <= a < b < cur.entries@[i].users@.len() implies (
            #[trigger] cur.entries@[i].users@[a])@ != (#[trigger] cur.entries@[i].users@[b])@ by {
                if b == plen {
                    assert(cur.entries@[i].users@[a] == prev.entries@[i].users@[a]);
                } else {
                    assert(cur.entries@[i].users@[a] == prev.entries@[i].users@[a]);
                    assert(cur.entries@[i].users@[b] == prev.entries@[i].users@[b]);
                }
            }
        } else {
            assert(entry_wf(prev.entries@[k]));
        }
    }
    // the abstract set gains exactly `t`
    assert forall|x: (Seq<char>, Seq<char>, Seq<char>)| cur.as_set().contains(x)
        == prev.as_set().insert(t).contains(x) by {
        if cur.contains_triple(x.0, x.1, x.2) {
            let (ii, jj) = choose|ii: int, jj: int|
                #![trigger cur.entries@[ii].users@[jj]]
                {
                    &&& 0 <= ii < cur.entries@.len()
                    &&& 0 <= jj < cur.entries@[ii].users@.len()
                    &&& cur.entries@[ii].event_id@ == x.0
                    &&& cur.entries@[ii].emoji@ == x.1
                    &&& cur.entries@[ii].users@[jj]@ == x.2
                };
            if ii != i {
                assert(prev.entries@[ii].users@[jj]@ == x.2);
                assert(prev.contains_triple(x.0, x.1, x.2));
            } else if jj < plen {
                assert(prev.entries@[i].users@[jj]@ == x.2);
                assert(prev.contains_triple(x.0, x.1, x.2));
            } else {
                assert(x == t);
            }
        }
        if prev.contains_triple(x.0, x.1, x.2) {
            let (ii, jj) = choose|ii: int, jj: int|
                #![trigger prev.entries@[ii].users@[jj]]
                {
                    &&& 0 <= ii < prev.entries@.len()
                    &&& 0 <= jj < prev.entries@[ii].users@.len()
                    &&& prev.entries@[ii].event_id@ == x.0
                    &&& prev.entries@[ii].emoji@ == x.1
                    &&& prev.entries@[ii].users@[jj]@ == x.2
                };
            if ii == i {
                assert(cur.entries@[i].users@[jj] == prev.entries@[i].users@[jj]);
                assert(cur.entries@[ii].users@[jj]@ == x.2);
            } else {
                assert(cur.entries@[ii] == prev.entries@[ii]);
                assert(cur.entries@[ii].users@[jj]@ == x.2);
            }
            assert(cur.contains_triple(x.0, x.1, x.2));
        }
        if x == t {
            assert(cur.entries@[i].users@[plen]@ == t.2);
            assert(cur.contains_triple(x.0, x.1, x.2));
        }
    }
    assert(cur.as_set() =~= prev.as_set().insert(t));
}

/// Appending a fresh entry whose key matches the triple `t` and whose only
/// user is `t`'s user inserts exactly `t` into the abstract set and preserves
/// well-formedness.
proof fn lemma_entry_added(prev: Reactions, cur: Reactions, t: (Seq<char>, Seq<char>, Seq<char>))
    requires
        prev.wf(),
        forall|k: int|
            0 <= k < prev.entries@.len() ==> !((#[trigger] prev.entries@[k]).event_id@ == t.0
                && prev.entries@[k].emoji@ == t.1),
        cur.entries@.len() == prev.entries@.len() + 1,
        forall|k: int|
            0 <= k < prev.entries@.len() ==> #[trigger] cur.entries@[k] == prev.entries@[k],
        cur.entries@.last().event_id@ == t.0,
        cur.entries@.last().emoji@ == t.1,
        cur.entries@.last().users@.len() == 1,
        cur.entries@.last().users@[0]@ == t.2,
    ensures
        cur.wf(),
        cur.as_set() == prev.as_set().insert(t),
{
    let plen = prev.entries@.len() as int;
    assert forall|k: int| 0 <= k < cur.entries@.len() implies entry_wf(
        #[trigger] cur.entries@[k],
    ) by {
        if k < plen {
            assert(entry_wf(prev.entries@[k]));
        }
    }
    assert forall|x: (Seq<char>, Seq<char>, Seq<char>)| cur.as_set().contains(x)
        == prev.as_set().insert(t).contains(x) by {
        if cur.contains_triple(x.0, x.1, x.2) {
            let (ii, jj) = choose|ii: int, jj: int|
                #![trigger cur.entries@[ii].users@[jj]]
                {
                    &&& 0 <= ii < cur.entries@.len()
                    &&& 0 <= jj < cur.entries@[ii].users@.len()
                    &&& cur.entries@[ii].event_id@ == x.0
                    &&& cur.entries@[ii].emoji@ == x.1
                    &&& cur.entries@[ii].users@[jj]@ == x.2
                };
            if ii < plen {
                assert(prev.entries@[ii].users@[jj]@ == x.2);
                assert(prev.contains_triple(x.0, x.1, x.2));
            } else {
                assert(x == t);
            }
        }
        if prev.contains_triple(x.0, x.1, x.2) {
            let (ii, jj) = choose|ii: int, jj: int|
                #![trigger prev.entries@[ii].users@[jj]]
                {
                    &&& 0 <= ii < prev.entries@.len()
                    &&& 0 <= jj < prev.entries@[ii].users@.len()
                    &&& prev.entries@[ii].event_id@ == x.0
                    &&& prev.entries@[ii].emoji@ == x.1
                    &&& prev.entries@[ii].users@[jj]@ == x.2
                };
            assert(cur.entries@[ii] == prev.entries@[ii]);
            assert(cur.entries@[ii].users@[jj]@ == x.2);
            assert(cur.contains_triple(x.0, x.1, x.2));
        }
        if x == t {
            assert(cur.entries@[plen].users@[0]@ == t.2);
            assert(cur.contains_triple(x.0, x.1, x.2));
        }
    }
    assert(cur.as_set() =~= prev.as_set().insert(t));
}

/// Recording a reaction is idempotent: inserting the same (event id, emoji,
/// user id) triple into the overlay twice yields the same overlay as
/// inserting it once.
pub proof fn lemma_record_reaction_idempotent(
    s: Set<(Seq<char>, Seq<char>, Seq<char>)>,
    t: (Seq<char>, Seq<char>, Seq<char>),
)
    ensures
        s.insert(t).insert(t) == s.insert(t),
{
    assert(s.insert(t).insert(t) =~= s.insert(t));
}

} // verus!
