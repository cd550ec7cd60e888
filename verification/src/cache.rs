//! The search cache: a persistent table from app id to the provider's
//! search identifier.
//!
//! The table is held as a list of association pairs with pairwise distinct
//! keys and is viewed as a map.  Persistence itself is the application's
//! concern: it stores the plain entry list produced by [`SearchCache::to_entries`]
//! and rebuilds the table with [`SearchCache::from_entries`].  Lookups are
//! served from the table alone and never reach the network.

use vstd::prelude::*;

verus! {

/// Association pairs folded into a map, later entries winning.
pub open spec fn entries_map(s: Seq<(u32, usize)>) -> Map<u32, usize>
    decreases s.len(),
{
    if s.len() == 0 {
        Map::empty()
    } else {
        entries_map(s.drop_last()).insert(s.last().0, s.last().1)
    }
}

/// Pairwise distinct keys.
pub open spec fn unique_keys(s: Seq<(u32, usize)>) -> bool {
    forall|i: int, j: int| 0 <= i < j < s.len() ==> s[i].0 != s[j].0
}

/// A key is in the folded map exactly when some pair carries it.
pub proof fn lemma_entries_map_dom(s: Seq<(u32, usize)>, k: u32)
    ensures
        entries_map(s).contains_key(k) <==> exists|i: int| 0 <= i < s.len() && s[i].0 == k,
    decreases s.len(),
{
    if s.len() > 0 {
        lemma_entries_map_dom(s.drop_last(), k);
        if s.last().0 == k {
            assert(s[s.len() - 1].0 == k);
        } else if entries_map(s).contains_key(k) {
            let i = choose|i: int| 0 <= i < s.drop_last().len() && s.drop_last()[i].0 == k;
            assert(s[i].0 == k);
        } else {
            assert forall|i: int| 0 <= i < s.len() implies s[i].0 != k by {
                if i < s.len() - 1 {
                    assert(s.drop_last()[i].0 != k);
                }
            }
        }
    }
}

/// With distinct keys, the folded map sends each carried key to its pair's value.
pub proof fn lemma_entries_map_at(s: Seq<(u32, usize)>, i: int)
    requires
        unique_keys(s),
        0 <= i < s.len(),
    ensures
        entries_map(s).contains_key(s[i].0),
        entries_map(s)[s[i].0] == s[i].1,
    decreases s.len(),
{
    if i == s.len() - 1 {
    } else {
        assert(s.drop_last()[i] == s[i]);
        lemma_entries_map_at(s.drop_last(), i);
        assert(s.last().0 != s[i].0);
    }
}

/// The persistent search cache: app id to provider search identifier.
pub struct SearchCache {
    entries: Vec<(u32, usize)>,
}

impl View for SearchCache {
    type V = Map<u32, usize>;

    closed spec fn view(&self) -> Map<u32, usize> {
        entries_map(self.entries@)
    }
}

impl SearchCache {
    /// The entry list as stored; what persistence writes out.
    pub closed spec fn spec_entries(&self) -> Seq<(u32, usize)> {
        self.entries@
    }

    /// Well-formed: no key is carried twice.
    pub closed spec fn wf(&self) -> bool {
        unique_keys(self.entries@)
    }

    /// The view is the fold of the stored entries.
    pub proof fn lemma_view_is_entries(&self)
        ensures
            self@ == entries_map(self.spec_entries()),
    {
    }

    /// An empty cache.
    pub fn new() -> (r: SearchCache)
        ensures
            r.wf(),
            r@ == Map::<u32, usize>::empty(),
    {
        let r = SearchCache { entries: Vec::new() };
        proof {
            assert(r.entries@.len() == 0);
        }
        r
    }

    /// Rebuilds a cache from a stored entry list; later duplicates win.
    pub fn from_entries(entries: &Vec<(u32, usize)>) -> (r: SearchCache)
        ensures
            r.wf(),
            r@ == entries_map(entries@),
    {
        let mut c = SearchCache::new();
        let n = entries.len();
        for i in 0..n
            invariant
                n == entries@.len(),
                c.wf(),
                c@ == entries_map(entries@.subrange(0, i as int)),
        {
            let (k, v) = entries[i];
            c.record(k, v);
            proof {
                let pre = entries@.subrange(0, i as int);
                let post = entries@.subrange(0, i + 1);
                assert(post.drop_last() =~= pre);
                assert(post.last() == entries@[i as int]);
            }
        }
        proof {
            assert(entries@.subrange(0, n as int) =~= entries@);
        }
        c
    }

    /// The stored entry list, for persistence.
    pub fn to_entries(&self) -> (r: Vec<(u32, usize)>)
        ensures
            r@ == self.spec_entries(),
    {
        let mut r: Vec<(u32, usize)> = Vec::new();
        let n = self.entries.len();
        for i in 0..n
            invariant
                n == self.entries@.len(),
                r@ == self.entries@.subrange(0, i as int),
        {
            r.push(self.entries[i]);
            proof {
                assert(self.entries@.subrange(0, i + 1) =~= self.entries@.subrange(
                    0,
                    i as int,
                ).push(self.entries@[i as int]));
            }
        }
        proof {
            assert(self.entries@.subrange(0, n as int) =~= self.entries@);
        }
        r
    }

    /// Serves a resolution from the table; never issues a network call.
    pub fn lookup(&self, app_id: u32) -> (r: Option<usize>)
        requires
            self.wf(),
        ensures
            r == if self@.contains_key(app_id) {
                Some(self@[app_id])
            } else {
                None::<usize>
            },
    {
        let n = self.entries.len();
        for i in 0..n
            invariant
                self.wf(),
                n == self.entries@.len(),
                forall|j: int| 0 <= j < i ==> self.entries@[j].0 != app_id,
        {
            let (k, v) = self.entries[i];
            if k == app_id {
                proof {
                    lemma_entries_map_at(self.entries@, i as int);
                }
                return Some(v);
            }
        }
        proof {
            lemma_entries_map_dom(self.entries@, app_id);
        }
        None
    }

    /// Writes one resolution into the table, replacing any entry for the key.
    pub fn record(&mut self, app_id: u32, search_id: usize)
        requires
            old(self).wf(),
        ensures
            final(self).wf(),
            final(self)@ == old(self)@.insert(app_id, search_id),
    {
        let n = self.entries.len();
        for i in 0..n
            invariant
                self.entries@ == old(self).entries@,
                self.wf(),
                n == self.entries@.len(),
                forall|j: int| 0 <= j < i ==> self.entries@[j].0 != app_id,
        {
            let (k, _) = self.entries[i];
            if k == app_id {
                proof {
                    lemma_entries_map_update(self.entries@, i as int, search_id);
                }
                self.entries.set(i, (app_id, search_id));
                return;
            }
        }
        proof {
            lemma_entries_map_dom(self.entries@, app_id);
        }
        let ghost pre = self.entries@;
        self.entries.push((app_id, search_id));
        proof {
            assert(self.entries@.drop_last() =~= pre);
            assert forall|a: int, b: int|
                0 <= a < b < self.entries@.len() implies self.entries@[a].0
                != self.entries@[b].0 by {
                if b < pre.len() {
                    assert(self.entries@[a] == pre[a] && self.entries@[b] == pre[b]);
                } else {
                    assert(self.entries@[a] == pre[a]);
                    assert(self.entries@[b].0 == app_id);
                }
            }
        }
    }
}

/// Updating the value at a carried key folds to an insert on the map.
proof fn lemma_entries_map_update(s: Seq<(u32, usize)>, i: int, v: usize)
    requires
        unique_keys(s),
        0 <= i < s.len(),
    ensures
        unique_keys(s.update(i, (s[i].0, v))),
        entries_map(s.update(i, (s[i].0, v))) == entries_map(s).insert(s[i].0, v),
    decreases s.len(),
{
    let t = s.update(i, (s[i].0, v));
    assert(forall|a: int| 0 <= a < t.len() ==> t[a].0 == s[a].0);
    assert(unique_keys(t));
    if i == s.len() - 1 {
        assert(t.drop_last() =~= s.drop_last());
        assert(entries_map(t) =~= entries_map(s).insert(s[i].0, v));
    } else {
        assert(s.drop_last()[i] == s[i]);
        lemma_entries_map_update(s.drop_last(), i, v);
        assert(t.drop_last() =~= s.drop_last().update(i, (s[i].0, v)));
        assert(t.last() == s.last());
        assert(s.last().0 != s[i].0);
        assert(entries_map(t) =~= entries_map(s).insert(s[i].0, v));
    }
}

/// The outcome of one provider search for a shortcut.
#[derive(Clone, Copy, Debug, PartialEq, Eq, Structural)]
pub enum SearchOutcome {
    /// The provider resolved the game to a search identifier.
    Found(usize),
    /// The provider answered, but knows no such game; not cached, retried next run.
    NotFound,
    /// The call failed; not cached, the shortcut is skipped this run.
    Failed,
}

impl SearchCache {
    /// Folds one search outcome into the table: only a successful
    /// resolution is stored; a miss or a failure leaves the table unchanged.
    pub fn apply_outcome(&mut self, app_id: u32, outcome: SearchOutcome)
        requires
            old(self).wf(),
        ensures
            final(self).wf(),
            final(self)@ == match outcome {
                SearchOutcome::Found(id) => old(self)@.insert(app_id, id),
                _ => old(self)@,
            },
    {
        match outcome {
            SearchOutcome::Found(id) => self.record(app_id, id),
            _ => {},
        }
    }
}

/// Search outcomes folded into a table of successful resolutions.
pub open spec fn outcomes_map(s: Seq<(u32, SearchOutcome)>) -> Map<u32, usize>
    decreases s.len(),
{
    if s.len() == 0 {
        Map::empty()
    } else {
        match s.last().1 {
            SearchOutcome::Found(id) => outcomes_map(s.drop_last()).insert(s.last().0, id),
            _ => outcomes_map(s.drop_last()),
        }
    }
}

/// Collects this run's search outcomes into a table of resolved ids.
/// A failed or unresolved search contributes nothing and does not
/// disturb its siblings.
pub fn collect_outcomes(outcomes: &Vec<(u32, SearchOutcome)>) -> (r: SearchCache)
    ensures
        r.wf(),
        r@ == outcomes_map(outcomes@),
{
    let mut c = SearchCache::new();
    let n = outcomes.len();
    for i in 0..n
        invariant
            n == outcomes@.len(),
            c.wf(),
            c@ == outcomes_map(outcomes@.subrange(0, i as int)),
    {
        let (k, o) = outcomes[i];
        c.apply_outcome(k, o);
        proof {
            let pre = outcomes@.subrange(0, i as int);
            let post = outcomes@.subrange(0, i + 1);
            assert(post.drop_last() =~= pre);
            assert(post.last() == outcomes@[i as int]);
        }
    }
    proof {
        assert(outcomes@.subrange(0, n as int) =~= outcomes@);
    }
    c
}

/// A key is resolved by a batch of outcomes exactly when some outcome
/// found it — whatever order the concurrent searches completed in.
pub proof fn lemma_outcomes_map_dom(s: Seq<(u32, SearchOutcome)>, k: u32)
    ensures
        outcomes_map(s).contains_key(k) <==> exists|i: int|
            0 <= i < s.len() && s[i].0 == k && s[i].1 is Found,
    decreases s.len(),
{
    if s.len() > 0 {
        lemma_outcomes_map_dom(s.drop_last(), k);
        if outcomes_map(s).contains_key(k) {
            if s.last().0 == k && s.last().1 is Found {
                assert(s[s.len() - 1].0 == k && s[s.len() - 1].1 is Found);
            } else {
                let i = choose|i: int|
                    0 <= i < s.drop_last().len() && s.drop_last()[i].0 == k && s.drop_last()[i].1
                        is Found;
                assert(s[i].0 == k && s[i].1 is Found);
            }
        } else {
            assert forall|i: int|
                0 <= i < s.len() implies !(s[i].0 == k && (#[trigger] s[i]).1 is Found) by {
                if i < s.len() - 1 {
                    assert(s.drop_last()[i] == s[i]);
                }
            }
        }
    }
}

/// With each shortcut searched once, a successful search's key resolves to
/// its identifier, and a failed or unresolved search leaves no entry — one
/// bad sibling never disturbs the others, in any completion order.
pub proof fn lemma_outcome_isolated(s: Seq<(u32, SearchOutcome)>, i: int)
    requires
        forall|a: int, b: int| 0 <= a < b < s.len() ==> s[a].0 != s[b].0,
        0 <= i < s.len(),
    ensures
        s[i].1 is Found ==> outcomes_map(s).contains_key(s[i].0) && outcomes_map(s)[s[i].0]
            == s[i].1->Found_0,
        !(s[i].1 is Found) ==> !outcomes_map(s).contains_key(s[i].0),
    decreases s.len(),
{
    lemma_outcomes_map_dom(s, s[i].0);
    if i == s.len() - 1 {
        if !(s[i].1 is Found) && outcomes_map(s).contains_key(s[i].0) {
            let j = choose|j: int|
                0 <= j < s.len() && s[j].0 == s[i].0 && (#[trigger] s[j]).1 is Found;
            assert(j < s.len() - 1);
            assert(false);
        }
    } else {
        assert(s.drop_last()[i] == s[i]);
        lemma_outcome_isolated(s.drop_last(), i);
        assert(s.last().0 != s[i].0);
        lemma_outcomes_map_dom(s.drop_last(), s[i].0);
    }
}

/// Law: saving the cache and loading what was saved yields a cache that
/// resolves exactly the app ids the original resolved, to the same
/// identifiers — and a lookup never issues a network call, so no new
/// provider traffic is needed for any of them.
pub proof fn lemma_cache_round_trip(original: SearchCache, reloaded: SearchCache)
    requires
        reloaded@ == entries_map(original.spec_entries()),
    ensures
        reloaded@ == original@,
        forall|id: u32|
            original@.contains_key(id) ==> reloaded@.contains_key(id) && reloaded@[id]
                == original@[id],
{
    original.lemma_view_is_entries();
}

} // verus!
