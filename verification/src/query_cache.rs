//! The shared cache of query results: one state per (query type, query key),
//! holding the serialized response, shared by every view that runs the same
//! query.

use vstd::prelude::*;
use crate::query::QueryState;

verus! {

/// The plain-value form of a cached query state.
pub struct CachedQuery {
    pub data: Option<Seq<u8>>,
    pub error: Option<Seq<char>>,
    pub is_fetching: bool,
    pub is_stale: bool,
}

/// The plain-value form of a query state holding serialized data.
pub open spec fn cached_query(s: QueryState<Vec<u8>>) -> CachedQuery {
    CachedQuery {
        data: match s.data {
            Some(d) => Some(d@),
            None => None,
        },
        error: match s.error {
            Some(e) => Some(e@),
            None => None,
        },
        is_fetching: s.is_fetching,
        is_stale: s.is_stale,
    }
}

/// The state of a query that has not run: no data, no error, idle.
pub open spec fn empty_query() -> CachedQuery {
    CachedQuery { data: None, error: None, is_fetching: false, is_stale: false }
}

/// A fetch starts: data already there becomes stale.
pub open spec fn fetch_started(c: CachedQuery) -> CachedQuery {
    CachedQuery { is_fetching: true, is_stale: c.is_stale || c.data is Some, ..c }
}

/// A fetch failed: the error is kept, the data too.
pub open spec fn fetch_failed_with(c: CachedQuery, error: Seq<char>) -> CachedQuery {
    CachedQuery { is_fetching: false, error: Some(error), ..c }
}

/// A fetch succeeded: fresh data, no error.
pub open spec fn fetch_succeeded_with(data: Seq<u8>) -> CachedQuery {
    CachedQuery { data: Some(data), error: None, is_fetching: false, is_stale: false }
}

/// Every cached query cleared, the entries kept.
pub open spec fn cleared_cache(m: Map<(Seq<char>, Seq<char>), CachedQuery>) -> Map<
    (Seq<char>, Seq<char>),
    CachedQuery,
> {
    Map::new(|k: (Seq<char>, Seq<char>)| m.contains_key(k), |k: (Seq<char>, Seq<char>)| empty_query())
}

/// Some query of this type has cached data.
pub open spec fn spec_has_cached_data(m: Map<(Seq<char>, Seq<char>), CachedQuery>, query_type: Seq<char>) -> bool {
    exists|key: Seq<char>| #[trigger] m.contains_key((query_type, key)) && m[(query_type, key)].data is Some
}

/// One cached query.
pub struct QueryCacheEntry {
    pub query_type: String,
    pub key: String,
    pub state: QueryState<Vec<u8>>,
}

/// The (query type, query key) of an entry.
pub open spec fn cache_key(e: QueryCacheEntry) -> (Seq<char>, Seq<char>) {
    (e.query_type@, e.key@)
}

/// No (query type, query key) is cached twice.
pub open spec fn cache_keys_unique(s: Seq<QueryCacheEntry>) -> bool {
    forall|i: int, j: int| 0 <= i < s.len() && 0 <= j < s.len() && i != j ==> cache_key(s[i]) != cache_key(s[j])
}

/// The entries as a map from (query type, query key) to state.
pub open spec fn cache_view(s: Seq<QueryCacheEntry>) -> Map<(Seq<char>, Seq<char>), CachedQuery>
    decreases s.len(),
{
    if s.len() == 0 {
        Map::empty()
    } else {
        cache_view(s.drop_last()).insert(cache_key(s.last()), cached_query(s.last().state))
    }
}

proof fn lemma_cache_index(s: Seq<QueryCacheEntry>)
    requires
        cache_keys_unique(s),
    ensures
        forall|k: (Seq<char>, Seq<char>)| #[trigger] cache_view(s).contains_key(k) ==> exists|i: int|
            0 <= i < s.len() && cache_key(#[trigger] s[i]) == k,
        forall|i: int| 0 <= i < s.len() ==> cache_view(s).contains_key(cache_key(#[trigger] s[i]))
            && cache_view(s)[cache_key(s[i])] == cached_query(s[i].state),
    decreases s.len(),
{
    if s.len() > 0 {
        let t = s.drop_last();
        assert(cache_keys_unique(t));
        lemma_cache_index(t);
        let last = s.last();
        assert forall|k: (Seq<char>, Seq<char>)| #[trigger] cache_view(s).contains_key(k) implies exists|i: int|
            0 <= i < s.len() && cache_key(#[trigger] s[i]) == k by {
            if k == cache_key(last) {
                assert(cache_key(s[s.len() - 1]) == k);
            } else {
                assert(cache_view(t).contains_key(k));
                let i = choose|i: int| 0 <= i < t.len() && cache_key(#[trigger] t[i]) == k;
                assert(s[i] == t[i]);
            }
        }
        assert forall|i: int| 0 <= i < s.len() implies cache_view(s).contains_key(cache_key(#[trigger] s[i]))
            && cache_view(s)[cache_key(s[i])] == cached_query(s[i].state) by {
            if i < s.len() - 1 {
                assert(s[i] == t[i]);
                assert(cache_key(s[i]) != cache_key(s[s.len() - 1]));
            }
        }
    }
}

/// Replacing the state of one entry, keeping its key, replaces that key's
/// state in the map.
proof fn lemma_cache_update(s: Seq<QueryCacheEntry>, i: int, e: QueryCacheEntry)
    requires
        cache_keys_unique(s),
        0 <= i < s.len(),
        cache_key(e) == cache_key(s[i]),
    ensures
        cache_keys_unique(s.update(i, e)),
        cache_view(s.update(i, e)) == cache_view(s).insert(cache_key(e), cached_query(e.state)),
{
    let t = s.update(i, e);
    assert(cache_keys_unique(t)) by {
        assert forall|a: int, b: int| 0 <= a < t.len() && 0 <= b < t.len() && a != b implies cache_key(t[a])
            != cache_key(t[b]) by {
            assert(cache_key(t[a]) == cache_key(s[a]));
            assert(cache_key(t[b]) == cache_key(s[b]));
        }
    }
    lemma_cache_index(s);
    lemma_cache_index(t);
    let target = cache_view(s).insert(cache_key(e), cached_query(e.state));
    assert forall|k: (Seq<char>, Seq<char>)| #[trigger] cache_view(t).contains_key(k) <==> target.contains_key(k) by {
        if cache_view(t).contains_key(k) {
            let j = choose|j: int| 0 <= j < t.len() && cache_key(#[trigger] t[j]) == k;
            assert(cache_key(s[j]) == k);
        }
        if cache_view(s).contains_key(k) {
            let j = choose|j: int| 0 <= j < s.len() && cache_key(#[trigger] s[j]) == k;
            assert(cache_key(t[j]) == k);
        }
        if k == cache_key(e) {
            assert(cache_key(t[i]) == k);
        }
    }
    assert forall|k: (Seq<char>, Seq<char>)| #[trigger] cache_view(t).contains_key(k) implies cache_view(t)[k]
        == target[k] by {
        let j = choose|j: int| 0 <= j < t.len() && cache_key(#[trigger] t[j]) == k;
        if j != i {
            assert(t[j] == s[j]);
            assert(cache_key(s[j]) != cache_key(s[i]));
        }
    }
    assert(cache_view(t) =~= target);
}

/// The shared query cache.
pub struct QueryCache {
    entries: Vec<QueryCacheEntry>,
}

impl View for QueryCache {
    type V = Map<(Seq<char>, Seq<char>), CachedQuery>;

    closed spec fn view(&self) -> Map<(Seq<char>, Seq<char>), CachedQuery> {
        cache_view(self.entries@)
    }
}

impl QueryCache {
    /// Well formed: each (query type, query key) once.
    pub closed spec fn wf(&self) -> bool {
        cache_keys_unique(self.entries@)
    }

    /// An empty cache.
    pub fn new() -> (r: Self)
        ensures
            r.wf(),
            r@ == Map::<(Seq<char>, Seq<char>), CachedQuery>::empty(),
    {
        QueryCache { entries: Vec::new() }
    }

    /// The position of a key.
    fn find(&self, query_type: &str, key: &str) -> (r: Option<usize>)
        requires
            self.wf(),
        ensures
            match r {
                Some(i) => i < self.entries@.len() && cache_key(self.entries@[i as int]) == (query_type@, key@),
                None => !self@.contains_key((query_type@, key@)),
            },
    {
        proof {
            lemma_cache_index(self.entries@);
        }
        let wanted_type = query_type.to_owned();
        let wanted_key = key.to_owned();
        let n = self.entries.len();
        let mut i: usize = 0;
        while i < n
            invariant
                n == self.entries@.len(),
                i <= n,
                wanted_type@ == query_type@,
                wanted_key@ == key@,
                forall|j: int| 0 <= j < i ==> cache_key(#[trigger] self.entries@[j]) != (query_type@, key@),
            decreases n - i,
        {
            let e = &self.entries[i];
            if e.query_type == wanted_type && e.key == wanted_key {
                return Some(i);
            }
            i = i + 1;
        }
        None
    }

    /// The cached state of a query.
    pub fn state(&self, query_type: &str, key: &str) -> (r: Option<&QueryState<Vec<u8>>>)
        requires
            self.wf(),
        ensures
            match r {
                Some(s) => self@.contains_key((query_type@, key@)) && self@[(query_type@, key@)] == cached_query(*s),
                None => !self@.contains_key((query_type@, key@)),
            },
    {
        proof {
            lemma_cache_index(self.entries@);
        }
        match self.find(query_type, key) {
            Some(i) => Some(&self.entries[i].state),
            None => None,
        }
    }

    /// Makes sure the query has a cache entry: an existing one is kept, a
    /// missing one is created empty.
    pub fn get_or_create(&mut self, query_type: &str, key: &str)
        requires
            old(self).wf(),
        ensures
            final(self).wf(),
            final(self)@ == (if old(self)@.contains_key((query_type@, key@)) {
                old(self)@
            } else {
                old(self)@.insert((query_type@, key@), empty_query())
            }),
    {
        proof {
            lemma_cache_index(self.entries@);
        }
        match self.find(query_type, key) {
            Some(_) => {},
            None => {
                let ghost old_entries = self.entries@;
                let entry = QueryCacheEntry {
                    query_type: query_type.to_owned(),
                    key: key.to_owned(),
                    state: QueryState { data: None, error: None, is_fetching: false, is_stale: false },
                };
                self.entries.push(entry);
                proof {
                    let s = self.entries@;
                    assert(s.drop_last() == old_entries);
                    assert(cache_keys_unique(s)) by {
                        assert forall|a: int, b: int| 0 <= a < s.len() && 0 <= b < s.len() && a != b implies cache_key(
                            s[a],
                        ) != cache_key(s[b]) by {
                            if a < old_entries.len() && b < old_entries.len() {
                                assert(s[a] == old_entries[a] && s[b] == old_entries[b]);
                            } else if a < old_entries.len() {
                                assert(s[a] == old_entries[a]);
                                assert(cache_view(old_entries).contains_key(cache_key(old_entries[a])));
                            } else {
                                assert(s[b] == old_entries[b]);
                                assert(cache_view(old_entries).contains_key(cache_key(old_entries[b])));
                            }
                        }
                    }
                    assert(cached_query(entry.state) == empty_query());
                }
            },
        }
    }

    /// A fetch of the query starts; a query without an entry is left alone.
    pub fn start_fetch(&mut self, query_type: &str, key: &str)
        requires
            old(self).wf(),
        ensures
            final(self).wf(),
            final(self)@ == (if old(self)@.contains_key((query_type@, key@)) {
                old(self)@.insert((query_type@, key@), fetch_started(old(self)@[(query_type@, key@)]))
            } else {
                old(self)@
            }),
    {
        proof {
            lemma_cache_index(self.entries@);
        }
        match self.find(query_type, key) {
            Some(i) => {
                let ghost old_entries = self.entries@;
                self.entries[i].state.start_fetch();
                proof {
                    let e = self.entries@[i as int];
                    assert(self.entries@ == old_entries.update(i as int, e));
                    lemma_cache_update(old_entries, i as int, e);
                    assert(cached_query(e.state) == fetch_started(cached_query(old_entries[i as int].state)));
                }
            },
            None => {},
        }
    }

    /// The fetch of the query failed; a query without an entry is left
    /// alone.
    pub fn fetch_failed(&mut self, query_type: &str, key: &str, error: String)
        requires
            old(self).wf(),
        ensures
            final(self).wf(),
            final(self)@ == (if old(self)@.contains_key((query_type@, key@)) {
                old(self)@.insert((query_type@, key@), fetch_failed_with(old(self)@[(query_type@, key@)], error@))
            } else {
                old(self)@
            }),
    {
        proof {
            lemma_cache_index(self.entries@);
        }
        match self.find(query_type, key) {
            Some(i) => {
                let ghost old_entries = self.entries@;
                self.entries[i].state.fetch_failed(error);
                proof {
                    let e = self.entries@[i as int];
                    assert(self.entries@ == old_entries.update(i as int, e));
                    lemma_cache_update(old_entries, i as int, e);
                    assert(cached_query(e.state) == fetch_failed_with(
                        cached_query(old_entries[i as int].state),
                        error@,
                    ));
                }
            },
            None => {},
        }
    }

    /// The fetch of the query succeeded with these serialized data; a query
    /// without an entry is left alone.
    pub fn fetch_succeeded(&mut self, query_type: &str, key: &str, data: Vec<u8>)
        requires
            old(self).wf(),
        ensures
            final(self).wf(),
            final(self)@ == (if old(self)@.contains_key((query_type@, key@)) {
                old(self)@.insert((query_type@, key@), fetch_succeeded_with(data@))
            } else {
                old(self)@
            }),
    {
        proof {
            lemma_cache_index(self.entries@);
        }
        match self.find(query_type, key) {
            Some(i) => {
                let ghost old_entries = self.entries@;
                self.entries[i].state.fetch_succeeded(data);
                proof {
                    let e = self.entries@[i as int];
                    assert(self.entries@ == old_entries.update(i as int, e));
                    lemma_cache_update(old_entries, i as int, e);
                    assert(cached_query(e.state) == fetch_succeeded_with(data@));
                }
            },
            None => {},
        }
    }

    /// Whether some query of this type has cached data.
    pub fn has_cached_data(&self, query_type: &str) -> (r: bool)
        requires
            self.wf(),
        ensures
            r == spec_has_cached_data(self@, query_type@),
    {
        proof {
            lemma_cache_index(self.entries@);
        }
        let wanted = query_type.to_owned();
        let n = self.entries.len();
        let mut i: usize = 0;
        while i < n
            invariant
                n == self.entries@.len(),
                i <= n,
                wanted@ == query_type@,
                cache_keys_unique(self.entries@),
                forall|j: int| 0 <= j < i ==> !(#[trigger] self.entries@[j].query_type@ == query_type@
                    && self.entries@[j].state.data is Some),
            decreases n - i,
        {
            let e = &self.entries[i];
            if e.query_type == wanted && e.state.data.is_some() {
                proof {
                    lemma_cache_index(self.entries@);
                    let k = self.entries@[i as int].key@;
                    assert(cache_key(self.entries@[i as int]) == (query_type@, k));
                    assert(self@.contains_key((query_type@, k)));
                }
                return true;
            }
            i = i + 1;
        }
        proof {
            lemma_cache_index(self.entries@);
            assert forall|key: Seq<char>| #[trigger] self@.contains_key((query_type@, key)) implies self@[(
                query_type@,
                key,
            )].data is None by {
                let j = choose|j: int| 0 <= j < self.entries@.len() && cache_key(#[trigger] self.entries@[j]) == (
                    query_type@,
                    key,
                );
                assert(self.entries@[j].query_type@ == query_type@);
            }
        }
        false
    }

    /// Clears the data and error of every cached query, keeping the
    /// entries; nothing is refetched.
    pub fn clear_cache(&mut self)
        requires
            old(self).wf(),
        ensures
            final(self).wf(),
            final(self)@ == cleared_cache(old(self)@),
    {
        let ghost old_s = self.entries@;
        proof {
            lemma_cache_index(old_s);
        }
        let n = self.entries.len();
        let mut i: usize = 0;
        while i < n
            invariant
                n == self.entries@.len(),
                n == old_s.len(),
                i <= n,
                cache_keys_unique(old_s),
                forall|j: int| 0 <= j < n ==> cache_key(#[trigger] self.entries@[j]) == cache_key(old_s[j]),
                forall|j: int| 0 <= j < i ==> cached_query((#[trigger] self.entries@[j]).state) == empty_query(),
            decreases n - i,
        {
            self.entries[i].state.clear();
            i = i + 1;
        }
        proof {
            let s = self.entries@;
            assert(cache_keys_unique(s)) by {
                assert forall|a: int, b: int| 0 <= a < s.len() && 0 <= b < s.len() && a != b implies cache_key(s[a])
                    != cache_key(s[b]) by {
                    assert(cache_key(old_s[a]) != cache_key(old_s[b]));
                }
            }
            lemma_cache_index(s);
            assert forall|k: (Seq<char>, Seq<char>)| #[trigger] cache_view(s).contains_key(k) <==> cache_view(
                old_s,
            ).contains_key(k) by {
                if cache_view(s).contains_key(k) {
                    let j = choose|j: int| 0 <= j < s.len() && cache_key(#[trigger] s[j]) == k;
                    assert(cache_key(old_s[j]) == k);
                }
                if cache_view(old_s).contains_key(k) {
                    let j = choose|j: int| 0 <= j < old_s.len() && cache_key(#[trigger] old_s[j]) == k;
                    assert(cache_key(s[j]) == k);
                }
            }
            assert(cache_view(s).dom() =~= cache_view(old_s).dom());
            assert forall|k: (Seq<char>, Seq<char>)| #[trigger] cache_view(s).contains_key(k) implies cache_view(s)[k]
                == empty_query() by {
                let j = choose|j: int| 0 <= j < s.len() && cache_key(#[trigger] s[j]) == k;
            }
            assert(cache_view(s) =~= cleared_cache(cache_view(old_s)));
        }
    }
}

/// A query whose fetch succeeded has cached data for its type.
pub proof fn law_fetch_success_is_cached(
    m: Map<(Seq<char>, Seq<char>), CachedQuery>,
    query_type: Seq<char>,
    key: Seq<char>,
    data: Seq<u8>,
)
    requires
        m.contains_key((query_type, key)),
    ensures
        spec_has_cached_data(m.insert((query_type, key), fetch_succeeded_with(data)), query_type),
{
    let after = m.insert((query_type, key), fetch_succeeded_with(data));
    assert(after.contains_key((query_type, key)) && after[(query_type, key)].data is Some);
}

/// After the cache is cleared no query type has cached data, and no query
/// is fetching.
pub proof fn law_cleared_cache_is_empty(m: Map<(Seq<char>, Seq<char>), CachedQuery>, query_type: Seq<char>)
    ensures
        !spec_has_cached_data(cleared_cache(m), query_type),
        forall|k: (Seq<char>, Seq<char>)| #[trigger] cleared_cache(m).contains_key(k) ==> !cleared_cache(m)[k].is_fetching,
        cleared_cache(m).dom() == m.dom(),
{
    assert(cleared_cache(m).dom() =~= m.dom());
}

} // verus!
