//! Cached queries: the state of a query across fetches (stale data is kept
//! while refetching), the cache key of a request, and the invalidation
//! counters that trigger refetches.

use vstd::prelude::*;
use vstd::string::StringExecFns;
use crate::text::digits;
use crate::text::digit_char;
use crate::text::append_digits;
use crate::tracking::UseRequestState;

verus! {

/// State of a query.
#[derive(Clone, Debug)]
pub struct QueryState<T> {
    /// The fetched data, if any.
    pub data: Option<T>,
    /// The error of the last fetch, if it failed.
    pub error: Option<String>,
    /// Whether a fetch is in flight.
    pub is_fetching: bool,
    /// Whether the data shown is from an earlier fetch while a new one runs.
    pub is_stale: bool,
}

impl<T> Default for QueryState<T> {
    fn default() -> (r: Self)
        ensures
            r.data is None,
            r.error is None,
            !r.is_fetching,
            !r.is_stale,
    {
        QueryState { data: None, error: None, is_fetching: false, is_stale: false }
    }
}

impl<T> QueryState<T> {
    /// Loading for the first time: fetching with no data yet.
    pub fn is_loading(&self) -> (r: bool)
        ensures
            r == (self.is_fetching && self.data is None),
    {
        self.is_fetching && self.data.is_none()
    }

    /// Has data and no error.
    pub fn is_success(&self) -> (r: bool)
        ensures
            r == (self.data is Some && self.error is None),
    {
        self.data.is_some() && self.error.is_none()
    }

    /// Has an error.
    pub fn is_error(&self) -> (r: bool)
        ensures
            r == self.error is Some,
    {
        self.error.is_some()
    }

    /// A fetch starts: the query is fetching, and data it already has is
    /// now stale.
    pub fn start_fetch(&mut self)
        ensures
            final(self).is_fetching,
            final(self).is_stale == (old(self).is_stale || old(self).data is Some),
            final(self).data == old(self).data,
            final(self).error == old(self).error,
    {
        self.is_fetching = true;
        if self.data.is_some() {
            self.is_stale = true;
        }
    }

    /// The fetch failed: the error is shown, the data kept.
    pub fn fetch_failed(&mut self, error: String)
        ensures
            !final(self).is_fetching,
            final(self).error == Some(error),
            final(self).data == old(self).data,
            final(self).is_stale == old(self).is_stale,
    {
        self.is_fetching = false;
        self.error = Some(error);
    }

    /// The fetch succeeded: fresh data, no error.
    pub fn fetch_succeeded(&mut self, data: T)
        ensures
            !final(self).is_fetching,
            !final(self).is_stale,
            final(self).data == Some(data),
            final(self).error is None,
    {
        self.data = Some(data);
        self.error = None;
        self.is_fetching = false;
        self.is_stale = false;
    }

    /// Takes over a cached state whose data decoded to `data`: the data,
    /// and the cached error and flags.
    pub fn restore(&mut self, cached: &QueryState<Vec<u8>>, data: T)
        ensures
            final(self).data == Some(data),
            final(self).error == cached.error,
            final(self).is_fetching == cached.is_fetching,
            final(self).is_stale == cached.is_stale,
    {
        self.data = Some(data);
        self.error = match &cached.error {
            Some(e) => Some(e.clone()),
            None => None,
        };
        self.is_fetching = cached.is_fetching;
        self.is_stale = cached.is_stale;
    }

    /// Follows the request that fetches the query: nothing happens while it
    /// is idle or in flight; then its error, or else its data, is taken
    /// over.
    pub fn apply_request(&mut self, outcome: UseRequestState<T>)
        ensures
            (outcome.is_loading || (outcome.data is None && outcome.error is None)) ==> *final(self) == *old(self),
            (!outcome.is_loading && outcome.error is Some) ==> *final(self) == (QueryState {
                is_fetching: false,
                error: outcome.error,
                ..*old(self)
            }),
            (!outcome.is_loading && outcome.error is None && outcome.data is Some) ==> *final(self) == (QueryState {
                data: outcome.data,
                error: None,
                is_fetching: false,
                is_stale: false,
            }),
    {
        if outcome.is_idle() || outcome.is_loading() {
            return;
        }
        match outcome.error {
            Some(e) => self.fetch_failed(e),
            None => match outcome.data {
                Some(d) => self.fetch_succeeded(d),
                None => {},
            },
        }
    }

    /// Drops cached data and error (clearing the cache).
    pub fn clear(&mut self)
        ensures
            final(self).data is None,
            final(self).error is None,
            !final(self).is_fetching,
            !final(self).is_stale,
    {
        self.data = None;
        self.error = None;
        self.is_fetching = false;
        self.is_stale = false;
    }
}

/// What a query does when a view mounts, given the shared cache entry.
#[derive(Clone, Copy, PartialEq, Eq, Structural, Debug)]
pub enum MountAction {
    /// Show the cached data (and its state).
    Restore,
    /// Start a fetch.
    Fetch,
    /// Another view is fetching already: wait for its result.
    Wait,
}

/// The action on mount: restore cached data when there is some and it
/// decoded (`decoded`), else fetch unless a fetch is in flight.
pub fn mount_action(cached: &QueryState<Vec<u8>>, decoded: bool) -> (r: MountAction)
    ensures
        r == (if cached.data is Some && decoded {
            MountAction::Restore
        } else if !cached.is_fetching {
            MountAction::Fetch
        } else {
            MountAction::Wait
        }),
{
    if cached.data.is_some() && decoded {
        MountAction::Restore
    } else if !cached.is_fetching {
        MountAction::Fetch
    } else {
        MountAction::Wait
    }
}

/// Whether an invalidation counter calls for a refetch: when the query
/// type has a counter above the last one seen. Returns the counter to
/// remember.
pub fn refetch_on_invalidation(counter: Option<u64>, last_seen: u64) -> (r: Option<u64>)
    ensures
        r == (match counter {
            Some(c) => if c > last_seen {
                Some(c)
            } else {
                None
            },
            None => None,
        }),
{
    match counter {
        Some(c) => if c > last_seen {
            Some(c)
        } else {
            None
        },
        None => None,
    }
}

/// Two lower-case hexadecimal digits of a byte.
pub open spec fn byte_hex(b: u8) -> Seq<char> {
    if b < 16 {
        seq!['0'] + digits(b as nat, 16)
    } else {
        digits(b as nat, 16)
    }
}

/// The hexadecimal text of a byte sequence, two digits per byte.
pub open spec fn spec_hex_key(bytes: Seq<u8>) -> Seq<char>
    decreases bytes.len(),
{
    if bytes.len() == 0 {
        Seq::empty()
    } else {
        spec_hex_key(bytes.drop_last()) + byte_hex(bytes.last())
    }
}

proof fn lemma_byte_hex(b: u8)
    ensures
        byte_hex(b) == seq![digit_char((b / 16) as int), digit_char((b % 16) as int)],
{
    reveal_with_fuel(digits, 2);
    if b < 16 {
        assert(digits(b as nat, 16) == seq![digit_char(b as int)]);
        assert(byte_hex(b) =~= seq![digit_char((b / 16) as int), digit_char((b % 16) as int)]);
    } else {
        assert((b as nat) / 16 < 16);
        assert(digits((b as nat) / 16, 16) == seq![digit_char(((b as nat) / 16) as int)]);
        assert(byte_hex(b) =~= seq![digit_char((b / 16) as int), digit_char((b % 16) as int)]);
    }
}

/// The cache key of a request has two characters for every byte of it,
/// and characters `2i` and `2i + 1` are the high and low hexadecimal
/// digits of byte `i`: requests that differ in any byte, or in length,
/// get different keys.
pub proof fn law_query_key_spells_every_byte(bytes: Seq<u8>)
    ensures
        spec_hex_key(bytes).len() == 2 * bytes.len(),
        forall|i: int|
            0 <= i < bytes.len() ==> spec_hex_key(bytes)[2 * i] == digit_char((#[trigger] bytes[i] / 16) as int)
                && spec_hex_key(bytes)[2 * i + 1] == digit_char((bytes[i] % 16) as int),
    decreases bytes.len(),
{
    if bytes.len() > 0 {
        let init = bytes.drop_last();
        law_query_key_spells_every_byte(init);
        lemma_byte_hex(bytes.last());
        let k = spec_hex_key(bytes);
        assert(k == spec_hex_key(init) + byte_hex(bytes.last()));
        assert forall|i: int| 0 <= i < bytes.len() implies k[2 * i] == digit_char((#[trigger] bytes[i] / 16) as int)
            && k[2 * i + 1] == digit_char((bytes[i] % 16) as int) by {
            if i < init.len() {
                assert(bytes[i] == init[i]);
            } else {
                assert(i == bytes.len() - 1);
            }
        }
    }
}

/// The cache key of a query: its serialized request, two lower-case hex
/// digits per byte.
pub fn query_key(request_bytes: &[u8]) -> (r: String)
    ensures
        r@ == spec_hex_key(request_bytes@),
{
    let mut out = String::new();
    let n = request_bytes.len();
    let mut i: usize = 0;
    proof {
        assert(request_bytes@.take(0) =~= Seq::<u8>::empty());
    }
    while i < n
        invariant
            n == request_bytes@.len(),
            i <= n,
            out@ == spec_hex_key(request_bytes@.take(i as int)),
        decreases n - i,
    {
        let b = request_bytes[i];
        let ghost before = out@;
        if b < 16 {
            out.append("0");
            proof {
                reveal_strlit("0");
            }
        }
        append_digits(&mut out, b as u64, 16);
        proof {
            assert(request_bytes@.take(i + 1).drop_last() =~= request_bytes@.take(i as int));
            assert(out@ =~= before + byte_hex(b));
        }
        i = i + 1;
    }
    proof {
        assert(request_bytes@.take(n as int) =~= request_bytes@);
    }
    out
}

/// The cache key of a query: that of its serialized request, or `default`
/// when the request could not be serialized.
pub fn query_key_or_default(request_bytes: Option<&[u8]>) -> (r: String)
    ensures
        r@ == (match request_bytes {
            Some(b) => spec_hex_key(b@),
            None => "default"@,
        }),
{
    match request_bytes {
        Some(b) => query_key(b),
        None => String::from_str("default"),
    }
}

/// The cache key of a query aimed at an entity: `entity:<id>:<key>`.
pub fn targeted_query_key(entity_id: u64, key: &str) -> (r: String)
    ensures
        r@ == "entity:"@ + digits(entity_id as nat, 10) + ":"@ + key@,
{
    let mut out = String::from_str("entity:");
    append_digits(&mut out, entity_id, 10);
    out.append(":");
    out.append(key);
    out
}

/// Invalidation counters by query type: each invalidation of a type bumps
/// its counter, which tells the queries of that type to refetch.
pub struct QueryInvalidations {
    counters: Vec<QueryCounter>,
}

/// The invalidation count of one query type.
pub struct QueryCounter {
    pub query_type: String,
    pub count: u64,
}

/// The query type of a counter.
pub open spec fn counter_name(e: QueryCounter) -> Seq<char> {
    e.query_type@
}

/// The counters as a map from query type to count.
pub open spec fn counters_view(s: Seq<QueryCounter>) -> Map<Seq<char>, u64>
    decreases s.len(),
{
    if s.len() == 0 {
        Map::empty()
    } else {
        counters_view(s.drop_last()).insert(counter_name(s.last()), s.last().count)
    }
}

/// No query type is counted twice.
pub open spec fn counter_names_unique(s: Seq<QueryCounter>) -> bool {
    forall|i: int, j: int| 0 <= i < s.len() && 0 <= j < s.len() && i != j ==> counter_name(s[i]) != counter_name(s[j])
}

proof fn lemma_counters_index(s: Seq<QueryCounter>)
    requires
        counter_names_unique(s),
    ensures
        forall|k: Seq<char>| #[trigger] counters_view(s).contains_key(k) ==> exists|i: int|
            0 <= i < s.len() && counter_name(#[trigger] s[i]) == k,
        forall|i: int| 0 <= i < s.len() ==> counters_view(s).contains_key(counter_name(#[trigger] s[i]))
            && counters_view(s)[counter_name(s[i])] == s[i].count,
    decreases s.len(),
{
    if s.len() > 0 {
        let t = s.drop_last();
        assert(counter_names_unique(t));
        lemma_counters_index(t);
        assert forall|k: Seq<char>| #[trigger] counters_view(s).contains_key(k) implies exists|i: int|
            0 <= i < s.len() && counter_name(#[trigger] s[i]) == k by {
            if k == counter_name(s.last()) {
                assert(counter_name(s[s.len() - 1]) == k);
            } else {
                assert(counters_view(t).contains_key(k));
                let i = choose|i: int| 0 <= i < t.len() && counter_name(#[trigger] t[i]) == k;
                assert(s[i] == t[i]);
            }
        }
        assert forall|i: int| 0 <= i < s.len() implies counters_view(s).contains_key(counter_name(#[trigger] s[i]))
            && counters_view(s)[counter_name(s[i])] == s[i].count by {
            if i < s.len() - 1 {
                assert(s[i] == t[i]);
                assert(counter_name(s[i]) != counter_name(s[s.len() - 1]));
            }
        }
    }
}

impl View for QueryInvalidations {
    type V = Map<Seq<char>, u64>;

    closed spec fn view(&self) -> Map<Seq<char>, u64> {
        counters_view(self.counters@)
    }
}

impl QueryInvalidations {
    /// Well formed: each query type once.
    pub closed spec fn wf(&self) -> bool {
        counter_names_unique(self.counters@)
    }

    /// No invalidation yet.
    pub fn new() -> (r: Self)
        ensures
            r.wf(),
            r@ == Map::<Seq<char>, u64>::empty(),
    {
        QueryInvalidations { counters: Vec::new() }
    }

    /// The count of a query type (0 when never invalidated).
    pub fn count(&self, query_type: &str) -> (r: u64)
        requires
            self.wf(),
        ensures
            r == (if self@.contains_key(query_type@) { self@[query_type@] } else { 0 }),
    {
        proof {
            lemma_counters_index(self.counters@);
        }
        let wanted = query_type.to_owned();
        let n = self.counters.len();
        let mut i: usize = 0;
        while i < n
            invariant
                n == self.counters@.len(),
                i <= n,
                wanted@ == query_type@,
                counter_names_unique(self.counters@),
                forall|j: int| 0 <= j < i ==> counter_name(#[trigger] self.counters@[j]) != query_type@,
            decreases n - i,
        {
            if self.counters[i].query_type == wanted {
                proof {
                    lemma_counters_index(self.counters@);
                    assert(counter_name(self.counters@[i as int]) == query_type@);
                }
                return self.counters[i].count;
            }
            i = i + 1;
        }
        0
    }

    /// Invalidates one query type: its counter goes up by one (wrapping),
    /// starting from 0 for a type never invalidated.
    pub fn invalidate(&mut self, query_type: &str)
        requires
            old(self).wf(),
        ensures
            final(self).wf(),
            final(self)@ == old(self)@.insert(
                query_type@,
                (if old(self)@.contains_key(query_type@) {
                    if old(self)@[query_type@] == u64::MAX { 0 } else { (old(self)@[query_type@] + 1) as u64 }
                } else {
                    1
                }),
            ),
    {
        proof {
            lemma_counters_index(self.counters@);
        }
        let wanted = query_type.to_owned();
        let n = self.counters.len();
        let mut i: usize = 0;
        while i < n
            invariant
                n == self.counters@.len(),
                i <= n,
                wanted@ == query_type@,
                self.counters@ == old(self).counters@,
                counter_names_unique(old(self).counters@),
                forall|j: int| 0 <= j < i ==> counter_name(#[trigger] self.counters@[j]) != query_type@,
            decreases n - i,
        {
            if self.counters[i].query_type == wanted {
                let ghost old_s = self.counters@;
                proof {
                    lemma_counters_index(old_s);
                    assert(counter_name(old_s[i as int]) == query_type@);
                }
                let name = wanted;
                let count = self.counters[i].count.wrapping_add(1);
                self.counters.set(i, QueryCounter { query_type: name, count });
                proof {
                    let s = self.counters@;
                    assert forall|a: int, b: int| 0 <= a < s.len() && 0 <= b < s.len() && a != b implies counter_name(s[a]) != counter_name(s[b]) by {
                        if a != i {
                            assert(s[a] == old_s[a]);
                        }
                        if b != i {
                            assert(s[b] == old_s[b]);
                        }
                        assert(counter_name(old_s[a]) != counter_name(old_s[b]));
                    }
                    lemma_counters_index(s);
                    let target = counters_view(old_s).insert(
                        query_type@,
                        (if old_s[i as int].count == u64::MAX { 0 } else { (old_s[i as int].count + 1) as u64 }),
                    );
                    assert forall|k: Seq<char>| #[trigger] counters_view(s).contains_key(k) <==> target.contains_key(k) by {
                        if counters_view(s).contains_key(k) {
                            let j = choose|j: int| 0 <= j < s.len() && counter_name(#[trigger] s[j]) == k;
                            if j != i {
                                assert(s[j] == old_s[j]);
                            }
                        }
                        if target.contains_key(k) && k != query_type@ {
                            let j = choose|j: int| 0 <= j < old_s.len() && counter_name(#[trigger] old_s[j]) == k;
                            assert(s[j] == old_s[j]);
                        }
                        if k == query_type@ {
                            assert(counter_name(s[i as int]) == k);
                        }
                    }
                    assert forall|k: Seq<char>| #[trigger] counters_view(s).contains_key(k) implies counters_view(s)[k] == target[k] by {
                        let j = choose|j: int| 0 <= j < s.len() && counter_name(#[trigger] s[j]) == k;
                        if j != i {
                            assert(s[j] == old_s[j]);
                        }
                    }
                    assert(counters_view(s) =~= target);
                }
                return;
            }
            i = i + 1;
        }
        let ghost old_s = self.counters@;
        self.counters.push(QueryCounter { query_type: wanted, count: 1 });
        proof {
            let s = self.counters@;
            assert(s.drop_last() == old_s);
            assert(!counters_view(old_s).contains_key(query_type@)) by {
                if counters_view(old_s).contains_key(query_type@) {
                    let j = choose|j: int| 0 <= j < old_s.len() && counter_name(#[trigger] old_s[j]) == query_type@;
                    assert(counter_name(old_s[j]) != query_type@);
                }
            }
            assert forall|a: int, b: int| 0 <= a < s.len() && 0 <= b < s.len() && a != b implies counter_name(s[a]) != counter_name(s[b]) by {
                if a < old_s.len() && b < old_s.len() {
                    assert(s[a] == old_s[a] && s[b] == old_s[b]);
                } else if a < old_s.len() {
                    assert(s[a] == old_s[a]);
                } else {
                    assert(s[b] == old_s[b]);
                }
            }
        }
    }

    /// Invalidates every query type seen so far: each counter goes up by
    /// one (wrapping).
    pub fn invalidate_all(&mut self)
        requires
            old(self).wf(),
        ensures
            final(self).wf(),
            final(self)@.dom() == old(self)@.dom(),
            forall|k: Seq<char>| #[trigger] final(self)@.contains_key(k) ==> final(self)@[k] == (if old(self)@[k]
                == u64::MAX {
                0
            } else {
                (old(self)@[k] + 1) as u64
            }),
    {
        let ghost old_s = self.counters@;
        proof {
            lemma_counters_index(old_s);
        }
        let n = self.counters.len();
        let mut i: usize = 0;
        while i < n
            invariant
                n == self.counters@.len(),
                n == old_s.len(),
                i <= n,
                counter_names_unique(old_s),
                forall|j: int| 0 <= j < n ==> counter_name(#[trigger] self.counters@[j]) == counter_name(old_s[j]),
                forall|j: int| 0 <= j < i ==> (#[trigger] self.counters@[j]).count == (if old_s[j].count == u64::MAX {
                    0
                } else {
                    (old_s[j].count + 1) as u64
                }),
                forall|j: int| i <= j < n ==> (#[trigger] self.counters@[j]).count == old_s[j].count,
            decreases n - i,
        {
            let count = self.counters[i].count.wrapping_add(1);
            let name = self.counters[i].query_type.clone();
            self.counters.set(i, QueryCounter { query_type: name, count });
            i = i + 1;
        }
        proof {
            let s = self.counters@;
            assert(counter_names_unique(s)) by {
                assert forall|a: int, b: int| 0 <= a < s.len() && 0 <= b < s.len() && a != b implies counter_name(s[a]) != counter_name(s[b]) by {
                    assert(counter_name(old_s[a]) != counter_name(old_s[b]));
                }
            }
            lemma_counters_index(s);
            assert forall|k: Seq<char>| #[trigger] counters_view(s).contains_key(k) <==> counters_view(old_s).contains_key(k) by {
                if counters_view(s).contains_key(k) {
                    let j = choose|j: int| 0 <= j < s.len() && counter_name(#[trigger] s[j]) == k;
                    assert(counter_name(old_s[j]) == k);
                }
                if counters_view(old_s).contains_key(k) {
                    let j = choose|j: int| 0 <= j < old_s.len() && counter_name(#[trigger] old_s[j]) == k;
                    assert(counter_name(s[j]) == k);
                }
            }
            assert(counters_view(s).dom() =~= counters_view(old_s).dom());
            assert forall|k: Seq<char>| #[trigger] counters_view(s).contains_key(k) implies counters_view(s)[k] == (if counters_view(old_s)[k]
                == u64::MAX {
                0
            } else {
                (counters_view(old_s)[k] + 1) as u64
            }) by {
                let j = choose|j: int| 0 <= j < s.len() && counter_name(#[trigger] s[j]) == k;
                assert(counter_name(old_s[j]) == k);
            }
        }
    }
}

} // verus!
