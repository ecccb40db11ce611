//! The in-memory cache of results, keyed by player name, and the freshness
//! rules for it and for the results kept in the database.

use vstd::prelude::*;

use crate::player::{PlayerResult, ResultRow};

verus! {

/// How long a result kept in memory is served again, in seconds.
pub const MEMORY_TTL_SECS: u64 = 1800;

/// How long a result kept in the database is served again, in seconds.
pub const DATABASE_TTL_SECS: u64 = 3600;

/// A result stored at `stored_at` is still served at `now`: less than
/// `ttl` seconds have passed.
pub open spec fn is_fresh(now: u64, stored_at: u64, ttl: u64) -> bool {
    now - stored_at < ttl
}

/// Whether a result stored at `stored_at` is still served at `now` under a
/// time to live of `ttl` seconds.
pub fn fresh(now: u64, stored_at: u64, ttl: u64) -> (r: bool)
    requires
        stored_at <= now,
    ensures
        r == is_fresh(now, stored_at, ttl),
{
    now - stored_at < ttl
}

/// The oldest timestamp that survives the cleanup of the database at `now`:
/// rows stored before it are deleted.
pub fn db_cutoff(now: u64) -> (r: i64)
    requires
        now >= DATABASE_TTL_SECS,
    ensures
        r == (now - DATABASE_TTL_SECS) as i64,
{
    (now - DATABASE_TTL_SECS) as i64
}

/// Rows that the cleanup at `cleaned_at` deletes could not have been served
/// at that time or later.
pub proof fn lemma_cleanup_removes_only_stale(cleaned_at: u64, stored_at: u64, later: u64)
    requires
        cleaned_at >= DATABASE_TTL_SECS,
        stored_at < cleaned_at - DATABASE_TTL_SECS,
        cleaned_at <= later,
    ensures
        !is_fresh(later, stored_at, DATABASE_TTL_SECS),
{
}

/// A cached result with the time it was stored.
pub struct CachedResult {
    pub name: String,
    pub result: PlayerResult,
    pub stored_at: u64,
}

/// Results looked up recently, at most one per player name.
pub struct ResultCache {
    entries: Vec<CachedResult>,
}

/// The map that a list of cache entries stands for.
pub open spec fn entry_map(s: Seq<CachedResult>) -> Map<Seq<char>, (ResultRow, u64)>
    decreases s.len(),
{
    if s.len() == 0 {
        Map::empty()
    } else {
        let e = s.last();
        entry_map(s.drop_last()).insert(e.name@, (e.result@, e.stored_at))
    }
}

pub open spec fn unique_names(s: Seq<CachedResult>) -> bool {
    forall|i: int, j: int| 0 <= i < j < s.len() ==> s[i].name@ != s[j].name@
}

proof fn lemma_entry_map_has(s: Seq<CachedResult>, i: int)
    requires
        unique_names(s),
        0 <= i < s.len(),
    ensures
        entry_map(s).contains_key(s[i].name@),
        entry_map(s)[s[i].name@] == (s[i].result@, s[i].stored_at),
    decreases s.len(),
{
    if i < s.len() - 1 {
        lemma_entry_map_has(s.drop_last(), i);
        assert(s[i].name@ != s.last().name@);
    }
}

proof fn lemma_entry_map_lacks(s: Seq<CachedResult>, k: Seq<char>)
    requires
        forall|i: int| 0 <= i < s.len() ==> #[trigger] s[i].name@ != k,
    ensures
        !entry_map(s).contains_key(k),
    decreases s.len(),
{
    if s.len() > 0 {
        assert(s.last().name@ != k);
        lemma_entry_map_lacks(s.drop_last(), k);
    }
}

proof fn lemma_entry_map_update(s: Seq<CachedResult>, i: int, e: CachedResult)
    requires
        unique_names(s),
        0 <= i < s.len(),
        s[i].name@ == e.name@,
    ensures
        entry_map(s.update(i, e)) == entry_map(s).insert(e.name@, (e.result@, e.stored_at)),
    decreases s.len(),
{
    let t = s.update(i, e);
    if i == s.len() - 1 {
        assert(t.drop_last() =~= s.drop_last());
        assert(t.last() == e);
        assert(entry_map(t) =~= entry_map(s).insert(e.name@, (e.result@, e.stored_at)));
    } else {
        assert(t.drop_last() =~= s.drop_last().update(i, e));
        lemma_entry_map_update(s.drop_last(), i, e);
        assert(s.last().name@ != e.name@);
        assert(entry_map(t) =~= entry_map(s).insert(e.name@, (e.result@, e.stored_at)));
    }
}

impl View for ResultCache {
    type V = Map<Seq<char>, (ResultRow, u64)>;

    open spec fn view(&self) -> Map<Seq<char>, (ResultRow, u64)> {
        self.as_map()
    }
}

impl ResultCache {
    #[verifier::type_invariant]
    spec fn names_unique(self) -> bool {
        unique_names(self.entries@)
    }

    /// The cache as a map from player name to result and storage time.
    pub closed spec fn as_map(&self) -> Map<Seq<char>, (ResultRow, u64)> {
        entry_map(self.entries@)
    }

    /// An empty cache.
    pub fn new() -> (r: ResultCache)
        ensures
            r@ == Map::<Seq<char>, (ResultRow, u64)>::empty(),
    {
        ResultCache { entries: Vec::new() }
    }

    fn position(&self, name: &String) -> (r: Option<usize>)
        ensures
            match r {
                Some(i) => i < self.entries@.len() && self.entries@[i as int].name@ == name@,
                None => forall|i: int|
                    0 <= i < self.entries@.len() ==> #[trigger] self.entries@[i].name@ != name@,
            },
    {
        let mut i: usize = 0;
        while i < self.entries.len()
            invariant
                i <= self.entries@.len(),
                forall|j: int| 0 <= j < i ==> #[trigger] self.entries@[j].name@ != name@,
            decreases self.entries@.len() - i,
        {
            if self.entries[i].name == *name {
                return Some(i);
            }
            i = i + 1;
        }
        None
    }

    /// The result cached for `name`, with the time it was stored.
    pub fn get(&self, name: &String) -> (r: Option<(PlayerResult, u64)>)
        ensures
            match r {
                Some((res, t)) => cached(*self, name@) == Some((res@, t)),
                None => cached(*self, name@) is None,
            },
            r matches Some((res, t)) ==> self@.contains_key(name@) && self@[name@] == (res@, t),
            r is None ==> !self@.contains_key(name@),
    {
        proof {
            use_type_invariant(self);
        }
        match self.position(name) {
            Some(i) => {
                proof {
                    lemma_entry_map_has(self.entries@, i as int);
                }
                let e = &self.entries[i];
                Some((e.result.duplicate(), e.stored_at))
            },
            None => {
                proof {
                    lemma_entry_map_lacks(self.entries@, name@);
                }
                None
            },
        }
    }

    /// Caches `result` for `name`, stored at `stored_at`, in place of
    /// whatever was cached for that name.
    pub fn insert(&mut self, name: String, result: PlayerResult, stored_at: u64)
        ensures
            final(self)@ == old(self)@.insert(name@, (result@, stored_at)),
    {
        proof {
            use_type_invariant(&*self);
        }
        let ghost k = name@;
        let ghost v = (result@, stored_at);
        match self.position(&name) {
            Some(i) => {
                let e = CachedResult { name, result, stored_at };
                proof {
                    lemma_entry_map_update(self.entries@, i as int, e);
                }
                let ghost old_entries = self.entries@;
                let mut entries: Vec<CachedResult> = Vec::new();
                std::mem::swap(&mut entries, &mut self.entries);
                entries.set(i, e);
                proof {
                    assert(entries@ =~= old_entries.update(i as int, e));
                    assert forall|a: int, b: int|
                        0 <= a < b < entries@.len() implies entries@[a].name@
                        != entries@[b].name@ by {
                        if a != i && b != i {
                            assert(entries@[a] == old_entries[a]);
                            assert(entries@[b] == old_entries[b]);
                        } else if a == i {
                            assert(entries@[b] == old_entries[b]);
                        } else {
                            assert(entries@[a] == old_entries[a]);
                        }
                    }
                }
                self.entries = entries;
            },
            None => {
                let e = CachedResult { name, result, stored_at };
                let ghost old_entries = self.entries@;
                let mut entries: Vec<CachedResult> = Vec::new();
                std::mem::swap(&mut entries, &mut self.entries);
                entries.push(e);
                proof {
                    assert(entries@.drop_last() =~= old_entries);
                    assert forall|a: int, b: int|
                        0 <= a < b < entries@.len() implies entries@[a].name@
                        != entries@[b].name@ by {
                        assert(entries@[a] == old_entries[a]);
                        if b < old_entries.len() {
                            assert(entries@[b] == old_entries[b]);
                        }
                    }
                }
                self.entries = entries;
            },
        }
    }
}

/// What a cache holds for `name`: the result and the time it was stored.
pub open spec fn cached(c: ResultCache, name: Seq<char>) -> Option<(ResultRow, u64)> {
    if c@.contains_key(name) {
        Some(c@[name])
    } else {
        None
    }
}

/// After `insert` of a result for `name` stored at `stored_at`, `get` of
/// `name` gives back that result and time, and `get` of any other name
/// gives what it gave before.
pub proof fn lemma_get_after_insert(
    before: ResultCache,
    after: ResultCache,
    name: Seq<char>,
    row: ResultRow,
    stored_at: u64,
    other: Seq<char>,
)
    requires
        after@ == before@.insert(name, (row, stored_at)),
    ensures
        cached(after, name) == Some((row, stored_at)),
        other != name ==> cached(after, other) == cached(before, other),
{
}

} // verus!
