//! A ledger of counters, one per user, and its ranking.

use vstd::prelude::*;
use vstd::seq_lib::*;

verus! {

/// One line of a ledger: a user and the user's count.
#[derive(Clone, Copy, Debug, PartialEq, Eq, Structural)]
pub struct Entry {
    pub user: u64,
    pub count: u32,
}

/// The order of a ranking: the higher count first, and of two equal counts
/// the lower user identity first.
pub open spec fn ranks_before(a: Entry, b: Entry) -> bool {
    a.count > b.count || (a.count == b.count && a.user < b.user)
}

/// Whether a list of entries stands in ranking order throughout.
pub open spec fn is_ranked(s: Seq<Entry>) -> bool {
    forall|i: int, j: int| 0 <= i < j < s.len() ==> ranks_before(#[trigger] s[i], #[trigger] s[j])
}

/// Whether no user occurs twice in a list of entries.
pub open spec fn distinct_users(s: Seq<Entry>) -> bool {
    forall|i: int, j: int| 0 <= i < j < s.len() ==> (#[trigger] s[i]).user != (#[trigger] s[j]).user
}

/// Whether a list of entries has one for the user.
pub open spec fn lists_user(s: Seq<Entry>, user: u64) -> bool {
    exists|i: int| 0 <= i < s.len() && (#[trigger] s[i]).user == user
}

/// The map from users to counts that a list of entries stands for.
pub open spec fn counts_of(s: Seq<Entry>) -> Map<u64, u32> {
    Map::new(
        |u: u64| lists_user(s, u),
        |u: u64| s[choose|i: int| 0 <= i < s.len() && (#[trigger] s[i]).user == u].count,
    )
}

/// Each entry of a list without repeated users is a pair of the map that
/// the list stands for.
pub proof fn lemma_counts_of(s: Seq<Entry>)
    requires
        distinct_users(s),
    ensures
        forall|i: int|
            0 <= i < s.len() ==> counts_of(s).contains_pair((#[trigger] s[i]).user, s[i].count),
        forall|e: Entry| s.contains(e) <==> counts_of(s).contains_pair(e.user, e.count),
{
    assert forall|i: int| 0 <= i < s.len() implies counts_of(s).contains_pair(
        (#[trigger] s[i]).user,
        s[i].count,
    ) by {
        let u = s[i].user;
        assert(lists_user(s, u));
        let k = choose|k: int| 0 <= k < s.len() && (#[trigger] s[k]).user == u;
        assert(k == i);
    }
    assert forall|e: Entry| s.contains(e) <==> counts_of(s).contains_pair(e.user, e.count) by {
        if s.contains(e) {
            let i = choose|i: int| 0 <= i < s.len() && s[i] == e;
            assert(counts_of(s).contains_pair(s[i].user, s[i].count));
        }
        if counts_of(s).contains_pair(e.user, e.count) {
            let i = choose|i: int| 0 <= i < s.len() && (#[trigger] s[i]).user == e.user;
            assert(counts_of(s).contains_pair(s[i].user, s[i].count));
            assert(s[i] == e);
        }
    }
}

/// Along a ranking the counts never rise.
pub proof fn lemma_ranked_counts_descend(s: Seq<Entry>)
    requires
        is_ranked(s),
    ensures
        forall|i: int, j: int| 0 <= i < j < s.len() ==> (#[trigger] s[i]).count >= (#[trigger] s[j]).count,
{
    assert forall|i: int, j: int| 0 <= i < j < s.len() implies (#[trigger] s[i]).count >= (
    #[trigger] s[j]).count by {
        assert(ranks_before(s[i], s[j]));
    }
}

/// Two rankings that hold the same entries are the same list: the order of
/// a ranking leaves no choice.
pub proof fn lemma_ranking_unique(a: Seq<Entry>, b: Seq<Entry>)
    requires
        is_ranked(a),
        is_ranked(b),
        forall|e: Entry| a.contains(e) <==> b.contains(e),
    ensures
        a == b,
    decreases a.len(),
{
    if a.len() == 0 {
        if b.len() > 0 {
            assert(b.contains(b[0]));
        }
        assert(a =~= b);
    } else {
        assert(a.contains(a[0]));
        assert(b.contains(a[0]));
        let j = choose|j: int| 0 <= j < b.len() && b[j] == a[0];
        assert(b.contains(b[0]));
        assert(a.contains(b[0]));
        let k = choose|k: int| 0 <= k < a.len() && a[k] == b[0];
        if j > 0 {
            assert(ranks_before(b[0], b[j]));
            if k > 0 {
                assert(ranks_before(a[0], a[k]));
            }
        }
        assert(a[0] == b[0]);
        let ta = a.drop_first();
        let tb = b.drop_first();
        assert(is_ranked(ta)) by {
            assert forall|i: int, l: int| 0 <= i < l < ta.len() implies ranks_before(
                #[trigger] ta[i],
                #[trigger] ta[l],
            ) by {
                assert(ranks_before(a[i + 1], a[l + 1]));
            }
        }
        assert(is_ranked(tb)) by {
            assert forall|i: int, l: int| 0 <= i < l < tb.len() implies ranks_before(
                #[trigger] tb[i],
                #[trigger] tb[l],
            ) by {
                assert(ranks_before(b[i + 1], b[l + 1]));
            }
        }
        assert forall|e: Entry| ta.contains(e) <==> tb.contains(e) by {
            if ta.contains(e) {
                let i = choose|i: int| 0 <= i < ta.len() && ta[i] == e;
                assert(a[i + 1] == e);
                assert(ranks_before(a[0], a[i + 1]));
                assert(a.contains(e));
                assert(b.contains(e));
                let l = choose|l: int| 0 <= l < b.len() && b[l] == e;
                assert(l > 0);
                assert(tb[l - 1] == e);
            }
            if tb.contains(e) {
                let i = choose|i: int| 0 <= i < tb.len() && tb[i] == e;
                assert(b[i + 1] == e);
                assert(ranks_before(b[0], b[i + 1]));
                assert(b.contains(e));
                assert(a.contains(e));
                let l = choose|l: int| 0 <= l < a.len() && a[l] == e;
                assert(l > 0);
                assert(ta[l - 1] == e);
            }
        }
        lemma_ranking_unique(ta, tb);
        assert(a =~= seq![a[0]] + ta);
        assert(b =~= seq![b[0]] + tb);
    }
}

fn goes_before(a: &Entry, b: &Entry) -> (r: bool)
    ensures
        r == ranks_before(*a, *b),
{
    a.count > b.count || (a.count == b.count && a.user < b.user)
}

/// Counters per user. A user without an entry counts as zero.
pub struct Ledger {
    entries: Vec<Entry>,
}

impl View for Ledger {
    type V = Map<u64, u32>;

    closed spec fn view(&self) -> Map<u64, u32> {
        counts_of(self.entries@)
    }
}

impl Ledger {
    /// No user has two entries.
    pub closed spec fn wf(&self) -> bool {
        distinct_users(self.entries@)
    }

    /// The count of a user: zero where the ledger has no entry.
    pub open spec fn points(&self, user: u64) -> nat {
        if self@.dom().contains(user) {
            self@[user] as nat
        } else {
            0
        }
    }

    /// An empty ledger.
    pub fn new() -> (r: Ledger)
        ensures
            r.wf(),
            r@ == Map::<u64, u32>::empty(),
    {
        let r = Ledger { entries: Vec::new() };
        proof {
            assert(r@ =~= Map::<u64, u32>::empty());
        }
        r
    }

    /// Whether no user has an entry.
    pub fn is_empty(&self) -> (r: bool)
        requires
            self.wf(),
        ensures
            r == (self@ == Map::<u64, u32>::empty()),
    {
        proof {
            if self.entries@.len() == 0 {
                assert(self@ =~= Map::<u64, u32>::empty());
            } else {
                assert(lists_user(self.entries@, self.entries@[0].user));
                assert(self@.dom().contains(self.entries@[0].user));
            }
        }
        self.entries.len() == 0
    }

    /// The count of a user.
    pub fn get(&self, user: u64) -> (r: u32)
        requires
            self.wf(),
        ensures
            r == self.points(user),
    {
        let mut i: usize = 0;
        while i < self.entries.len()
            invariant
                i <= self.entries.len(),
                self.wf(),
                forall|j: int| 0 <= j < i ==> (#[trigger] self.entries@[j]).user != user,
            decreases self.entries.len() - i,
        {
            if self.entries[i].user == user {
                proof {
                    lemma_counts_of(self.entries@);
                    assert(self@.contains_pair(self.entries@[i as int].user, self.entries@[i as int].count));
                }
                return self.entries[i].count;
            }
            i += 1;
        }
        0
    }

    /// Adds one to the user's count, with a new entry where there was none,
    /// and returns the new count.
    pub fn add_point(&mut self, user: u64) -> (r: u32)
        requires
            old(self).wf(),
            old(self).points(user) < u32::MAX,
        ensures
            final(self).wf(),
            r == old(self).points(user) + 1,
            final(self)@ == old(self)@.insert(user, r),
    {
        let ghost before = self.entries@;
        let mut i: usize = 0;
        while i < self.entries.len()
            invariant
                i <= self.entries.len(),
                self.entries@ == before,
                distinct_users(before),
                counts_of(before) == old(self)@,
                old(self).points(user) < u32::MAX,
                forall|j: int| 0 <= j < i ==> (#[trigger] self.entries@[j]).user != user,
            decreases self.entries.len() - i,
        {
            if self.entries[i].user == user {
                let c: u32 = self.entries[i].count;
                proof {
                    lemma_counts_of(before);
                    assert(counts_of(before).contains_pair(before[i as int].user, before[i as int].count));
                }
                let r: u32 = c + 1;
                self.entries.set(i, Entry { user, count: r });
                proof {
                    let after = self.entries@;
                    assert(distinct_users(after)) by {
                        assert forall|a: int, b: int| 0 <= a < b < after.len() implies (#[trigger] after[a]).user != (#[trigger] after[b]).user by {
                            assert(after[a].user == before[a].user);
                            assert(after[b].user == before[b].user);
                        }
                    }
                    lemma_counts_of(after);
                    assert forall|k: u64| lists_user(after, k) <==> lists_user(before, k) by {
                        if lists_user(after, k) {
                            let j = choose|j: int| 0 <= j < after.len() && (#[trigger] after[j]).user == k;
                            assert(before[j].user == k);
                        }
                        if lists_user(before, k) {
                            let j = choose|j: int| 0 <= j < before.len() && (#[trigger] before[j]).user == k;
                            assert(after[j].user == k);
                        }
                    }
                    assert forall|k: u64| counts_of(after).dom().contains(k) implies #[trigger] counts_of(after)[k] == counts_of(before).insert(user, r)[k] by {
                        let j = choose|j: int| 0 <= j < after.len() && (#[trigger] after[j]).user == k;
                        assert(counts_of(after).contains_pair(after[j].user, after[j].count));
                        assert(counts_of(before).contains_pair(before[j].user, before[j].count));
                    }
                    assert(counts_of(after) =~= counts_of(before).insert(user, r));
                }
                return r;
            }
            i += 1;
        }
        self.entries.push(Entry { user, count: 1 });
        proof {
            let after = self.entries@;
            assert(!lists_user(before, user));
            assert(distinct_users(after));
            lemma_counts_of(after);
            lemma_counts_of(before);
            assert forall|k: u64| lists_user(after, k) <==> (k == user || lists_user(before, k)) by {
                if lists_user(after, k) && k != user {
                    let j = choose|j: int| 0 <= j < after.len() && (#[trigger] after[j]).user == k;
                    assert(before[j].user == k);
                }
                if lists_user(before, k) {
                    let j = choose|j: int| 0 <= j < before.len() && (#[trigger] before[j]).user == k;
                    assert(after[j].user == k);
                }
                if k == user {
                    assert(after[before.len() as int].user == k);
                }
            }
            assert forall|k: u64| counts_of(after).dom().contains(k) implies #[trigger] counts_of(after)[k] == counts_of(before).insert(user, 1u32)[k] by {
                let j = choose|j: int| 0 <= j < after.len() && (#[trigger] after[j]).user == k;
                assert(counts_of(after).contains_pair(after[j].user, after[j].count));
                if k != user {
                    assert(counts_of(before).contains_pair(before[j].user, before[j].count));
                }
            }
            assert(counts_of(after) =~= counts_of(before).insert(user, 1u32));
        }
        1
    }

    /// Removes every entry.
    pub fn clear(&mut self)
        ensures
            final(self).wf(),
            final(self)@ == Map::<u64, u32>::empty(),
    {
        self.entries.clear();
        proof {
            assert(self@ =~= Map::<u64, u32>::empty());
        }
    }

    /// The entries in ranking order: the higher count first, and of two
    /// equal counts the lower user identity first.
    pub fn ranking(&self) -> (r: Vec<Entry>)
        requires
            self.wf(),
        ensures
            is_ranked(r@),
            forall|e: Entry| r@.contains(e) <==> self@.contains_pair(e.user, e.count),
    {
        let mut out: Vec<Entry> = Vec::new();
        let mut k: usize = 0;
        proof {
            assert(out@ =~= self.entries@.subrange(0, 0));
        }
        while k < self.entries.len()
            invariant
                k <= self.entries.len(),
                self.wf(),
                is_ranked(out@),
                out@.to_multiset() == self.entries@.subrange(0, k as int).to_multiset(),
            decreases self.entries.len() - k,
        {
            let e = self.entries[k];
            let mut pos: usize = 0;
            while pos < out.len() && goes_before(&out[pos], &e)
                invariant
                    pos <= out.len(),
                    forall|j: int| 0 <= j < pos ==> ranks_before(#[trigger] out@[j], e),
                decreases out.len() - pos,
            {
                pos += 1;
            }
            proof {
                let seen = self.entries@.subrange(0, k as int);
                let ghost_out = out@;
                seen.to_multiset_ensures();
                ghost_out.to_multiset_ensures();
                assert(!ghost_out.contains(e)) by {
                    if ghost_out.contains(e) {
                        assert(seen.to_multiset().count(e) > 0);
                        assert(seen.contains(e));
                        let j = choose|j: int| 0 <= j < seen.len() && seen[j] == e;
                        assert(self.entries@[j].user == self.entries@[k as int].user);
                    }
                }
                if pos < ghost_out.len() {
                    assert(ghost_out.contains(ghost_out[pos as int]));
                    assert(ranks_before(e, ghost_out[pos as int]));
                }
                to_multiset_insert(ghost_out, pos as int, e);
                assert(self.entries@.subrange(0, k as int + 1) =~= seen.push(e));
            }
            out.insert(pos, e);
            proof {
                assert(is_ranked(out@)) by {
                    assert forall|i: int, j: int| 0 <= i < j < out@.len() implies ranks_before(#[trigger] out@[i], #[trigger] out@[j]) by {
                        let prev = out@.remove(pos as int);
                        if i == pos {
                            assert(out@[j] == prev[j - 1]);
                            assert(ranks_before(e, prev[pos as int]));
                        } else if j == pos {
                            assert(out@[i] == prev[i]);
                        } else {
                            assert(out@[i] == prev[if i < pos { i } else { i - 1 }]);
                            assert(out@[j] == prev[if j < pos { j } else { j - 1 }]);
                        }
                    }
                }
            }
            k += 1;
        }
        proof {
            assert(self.entries@.subrange(0, k as int) =~= self.entries@);
            out@.to_multiset_ensures();
            self.entries@.to_multiset_ensures();
            lemma_counts_of(self.entries@);
            assert forall|e: Entry| out@.contains(e) <==> self.entries@.contains(e) by {
                assert(out@.to_multiset().count(e) == self.entries@.to_multiset().count(e));
            }
        }
        out
    }
}

} // verus!
