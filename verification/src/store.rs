//! The client's store of synchronized component data: raw bytes by
//! (entity, component type), kept up to date by the server's sync items.

use vstd::prelude::*;
use crate::bytes::copy_range;

verus! {

/// One change sent by the server for a subscription.
pub enum SyncItem {
    /// The current value of a component (sent when subscribing).
    Snapshot { subscription_id: u64, entity: u64, component_type: String, value: Vec<u8> },
    /// A new value of a component.
    Update { subscription_id: u64, entity: u64, component_type: String, value: Vec<u8> },
    /// A component was removed from an entity.
    ComponentRemoved { subscription_id: u64, entity: u64, component_type: String },
    /// An entity and all its components were removed.
    EntityRemoved { subscription_id: u64, entity: u64 },
}

/// One stored component value.
pub struct ComponentEntry {
    pub entity: u64,
    pub component: String,
    pub value: Vec<u8>,
}

/// The key of an entry.
pub open spec fn entry_key(e: ComponentEntry) -> (u64, Seq<char>) {
    (e.entity, e.component@)
}

/// No two entries share a key.
pub open spec fn keys_unique(s: Seq<ComponentEntry>) -> bool {
    forall|i: int, j: int| 0 <= i < s.len() && 0 <= j < s.len() && i != j ==> entry_key(s[i]) != entry_key(s[j])
}

/// The entries as a map from key to bytes.
pub open spec fn entries_view(s: Seq<ComponentEntry>) -> Map<(u64, Seq<char>), Seq<u8>>
    decreases s.len(),
{
    if s.len() == 0 {
        Map::empty()
    } else {
        entries_view(s.drop_last()).insert(entry_key(s.last()), s.last().value@)
    }
}

/// A map without the keys of one entity.
pub open spec fn without_entity(m: Map<(u64, Seq<char>), Seq<u8>>, entity: u64) -> Map<(u64, Seq<char>), Seq<u8>> {
    m.restrict(m.dom().filter(|k: (u64, Seq<char>)| k.0 != entity))
}

/// What applying a sync item does to the stored data.
pub open spec fn spec_apply(m: Map<(u64, Seq<char>), Seq<u8>>, item: SyncItem) -> Map<(u64, Seq<char>), Seq<u8>> {
    match item {
        SyncItem::Snapshot { entity, component_type, value, .. } => m.insert((entity, component_type@), value@),
        SyncItem::Update { entity, component_type, value, .. } => m.insert((entity, component_type@), value@),
        SyncItem::ComponentRemoved { entity, component_type, .. } => m.remove((entity, component_type@)),
        SyncItem::EntityRemoved { entity, .. } => without_entity(m, entity),
    }
}

/// What applying the items of a batch, in order, does to the stored data.
pub open spec fn spec_apply_all(m: Map<(u64, Seq<char>), Seq<u8>>, items: Seq<SyncItem>) -> Map<
    (u64, Seq<char>),
    Seq<u8>,
>
    decreases items.len(),
{
    if items.len() == 0 {
        m
    } else {
        spec_apply_all(spec_apply(m, items[0]), items.skip(1))
    }
}

proof fn lemma_view_index(s: Seq<ComponentEntry>)
    requires
        keys_unique(s),
    ensures
        forall|k: (u64, Seq<char>)| #[trigger] entries_view(s).contains_key(k) ==> exists|i: int|
            0 <= i < s.len() && entry_key(#[trigger] s[i]) == k,
        forall|i: int| 0 <= i < s.len() ==> entries_view(s).contains_key(entry_key(#[trigger] s[i]))
            && entries_view(s)[entry_key(s[i])] == s[i].value@,
    decreases s.len(),
{
    if s.len() > 0 {
        let t = s.drop_last();
        assert(keys_unique(t));
        lemma_view_index(t);
        let last = s.last();
        assert forall|k: (u64, Seq<char>)| #[trigger] entries_view(s).contains_key(k) implies exists|i: int|
            0 <= i < s.len() && entry_key(#[trigger] s[i]) == k by {
            if k == entry_key(last) {
                assert(entry_key(s[s.len() - 1]) == k);
            } else {
                assert(entries_view(t).contains_key(k));
                let i = choose|i: int| 0 <= i < t.len() && entry_key(#[trigger] t[i]) == k;
                assert(s[i] == t[i]);
            }
        }
        assert forall|i: int| 0 <= i < s.len() implies entries_view(s).contains_key(entry_key(#[trigger] s[i]))
            && entries_view(s)[entry_key(s[i])] == s[i].value@ by {
            if i < s.len() - 1 {
                assert(s[i] == t[i]);
                assert(entry_key(s[i]) != entry_key(s[s.len() - 1]));
            }
        }
    }
}

/// Stored component data.
pub struct ComponentStore {
    entries: Vec<ComponentEntry>,
}

impl View for ComponentStore {
    type V = Map<(u64, Seq<char>), Seq<u8>>;

    closed spec fn view(&self) -> Map<(u64, Seq<char>), Seq<u8>> {
        entries_view(self.entries@)
    }
}

impl ComponentStore {
    /// The store is well formed: no key is stored twice.
    pub closed spec fn wf(&self) -> bool {
        keys_unique(self.entries@)
    }

    /// An empty store.
    pub fn new() -> (r: Self)
        ensures
            r.wf(),
            r@ == Map::<(u64, Seq<char>), Seq<u8>>::empty(),
    {
        ComponentStore { entries: Vec::new() }
    }

    /// The position of a key.
    fn find(&self, entity: u64, component: &str) -> (r: Option<usize>)
        requires
            self.wf(),
        ensures
            match r {
                Some(i) => i < self.entries@.len() && entry_key(self.entries@[i as int]) == (entity, component@),
                None => !self@.contains_key((entity, component@)),
            },
    {
        proof {
            lemma_view_index(self.entries@);
        }
        let wanted = component.to_owned();
        let n = self.entries.len();
        let mut i: usize = 0;
        while i < n
            invariant
                n == self.entries@.len(),
                i <= n,
                wanted@ == component@,
                forall|j: int| 0 <= j < i ==> entry_key(#[trigger] self.entries@[j]) != (entity, component@),
            decreases n - i,
        {
            let e = &self.entries[i];
            if e.entity == entity && e.component == wanted {
                return Some(i);
            }
            i = i + 1;
        }
        None
    }

    /// The bytes stored for a key.
    pub fn get(&self, entity: u64, component: &str) -> (r: Option<&Vec<u8>>)
        requires
            self.wf(),
        ensures
            match r {
                Some(v) => self@.contains_key((entity, component@)) && self@[(entity, component@)] == v@,
                None => !self@.contains_key((entity, component@)),
            },
    {
        proof {
            lemma_view_index(self.entries@);
        }
        match self.find(entity, component) {
            Some(i) => Some(&self.entries[i].value),
            None => None,
        }
    }

    /// Stores the bytes of a component, replacing any previous value.
    pub fn insert(&mut self, entity: u64, component: String, value: Vec<u8>)
        requires
            old(self).wf(),
        ensures
            final(self).wf(),
            final(self)@ == old(self)@.insert((entity, component@), value@),
    {
        proof {
            lemma_view_index(self.entries@);
        }
        let ghost key = (entity, component@);
        match self.find(entity, component.as_str()) {
            Some(i) => {
                let ghost old_entries = self.entries@;
                let entry = ComponentEntry { entity, component, value };
                self.entries.set(i, entry);
                proof {
                    let s = self.entries@;
                    assert(s == old_entries.update(i as int, entry));
                    assert(keys_unique(s)) by {
                        assert forall|a: int, b: int| 0 <= a < s.len() && 0 <= b < s.len() && a != b implies entry_key(s[a])
                            != entry_key(s[b]) by {
                            if a != i && b != i {
                                assert(s[a] == old_entries[a] && s[b] == old_entries[b]);
                            } else if a == i {
                                assert(s[b] == old_entries[b]);
                                assert(entry_key(old_entries[i as int]) != entry_key(old_entries[b]));
                            } else {
                                assert(s[a] == old_entries[a]);
                                assert(entry_key(old_entries[i as int]) != entry_key(old_entries[a]));
                            }
                        }
                    }
                    lemma_view_index(s);
                    lemma_view_index(old_entries);
                    let target = entries_view(old_entries).insert(key, value@);
                    assert forall|k: (u64, Seq<char>)| #[trigger] entries_view(s).contains_key(k) <==> target.contains_key(k) by {
                        if entries_view(s).contains_key(k) {
                            let j = choose|j: int| 0 <= j < s.len() && entry_key(#[trigger] s[j]) == k;
                            if j != i {
                                assert(s[j] == old_entries[j]);
                            }
                        }
                        if target.contains_key(k) && k != key {
                            let j = choose|j: int| 0 <= j < old_entries.len() && entry_key(#[trigger] old_entries[j]) == k;
                            assert(j != i);
                            assert(s[j] == old_entries[j]);
                        }
                        if k == key {
                            assert(entry_key(s[i as int]) == key);
                        }
                    }
                    assert forall|k: (u64, Seq<char>)| #[trigger] entries_view(s).contains_key(k) implies entries_view(s)[k] == target[k] by {
                        let j = choose|j: int| 0 <= j < s.len() && entry_key(#[trigger] s[j]) == k;
                        if j != i {
                            assert(s[j] == old_entries[j]);
                        }
                    }
                    assert(entries_view(s) =~= target);
                }
            },
            None => {
                let ghost old_entries = self.entries@;
                let entry = ComponentEntry { entity, component, value };
                self.entries.push(entry);
                proof {
                    let s = self.entries@;
                    assert(s.drop_last() == old_entries);
                    assert(keys_unique(s)) by {
                        assert forall|a: int, b: int| 0 <= a < s.len() && 0 <= b < s.len() && a != b implies entry_key(s[a])
                            != entry_key(s[b]) by {
                            if a < old_entries.len() && b < old_entries.len() {
                                assert(s[a] == old_entries[a] && s[b] == old_entries[b]);
                            } else if a < old_entries.len() {
                                assert(s[a] == old_entries[a]);
                                assert(entries_view(old_entries).contains_key(entry_key(old_entries[a])));
                            } else {
                                assert(s[b] == old_entries[b]);
                                assert(entries_view(old_entries).contains_key(entry_key(old_entries[b])));
                            }
                        }
                    }
                }
            },
        }
    }

    /// Removes the bytes of a component; an absent key changes nothing.
    pub fn remove(&mut self, entity: u64, component: &str)
        requires
            old(self).wf(),
        ensures
            final(self).wf(),
            final(self)@ == old(self)@.remove((entity, component@)),
    {
        proof {
            lemma_view_index(self.entries@);
        }
        let ghost key = (entity, component@);
        match self.find(entity, component) {
            Some(i) => {
                let ghost old_entries = self.entries@;
                let _removed = self.entries.remove(i);
                proof {
                    let s = self.entries@;
                    assert(s == old_entries.remove(i as int));
                    assert forall|a: int| 0 <= a < s.len() implies #[trigger] s[a] == old_entries[if a < i { a } else { a + 1 }] by {}
                    assert(keys_unique(s)) by {
                        assert forall|a: int, b: int| 0 <= a < s.len() && 0 <= b < s.len() && a != b implies entry_key(s[a])
                            != entry_key(s[b]) by {
                            let a0 = if a < i { a } else { a + 1 };
                            let b0 = if b < i { b } else { b + 1 };
                            assert(s[a] == old_entries[a0] && s[b] == old_entries[b0]);
                        }
                    }
                    lemma_view_index(s);
                    lemma_view_index(old_entries);
                    let target = entries_view(old_entries).remove(key);
                    assert forall|k: (u64, Seq<char>)| #[trigger] entries_view(s).contains_key(k) <==> target.contains_key(k) by {
                        if entries_view(s).contains_key(k) {
                            let j = choose|j: int| 0 <= j < s.len() && entry_key(#[trigger] s[j]) == k;
                            let j0 = if j < i { j } else { j + 1 };
                            assert(s[j] == old_entries[j0]);
                            assert(j0 != i);
                            assert(entry_key(old_entries[j0]) != entry_key(old_entries[i as int]));
                        }
                        if target.contains_key(k) {
                            let j0 = choose|j: int| 0 <= j < old_entries.len() && entry_key(#[trigger] old_entries[j]) == k;
                            assert(j0 != i);
                            let j = if j0 < i { j0 } else { j0 - 1 };
                            assert(s[j] == old_entries[j0]);
                        }
                    }
                    assert forall|k: (u64, Seq<char>)| #[trigger] entries_view(s).contains_key(k) implies entries_view(s)[k] == target[k] by {
                        let j = choose|j: int| 0 <= j < s.len() && entry_key(#[trigger] s[j]) == k;
                        let j0 = if j < i { j } else { j + 1 };
                        assert(s[j] == old_entries[j0]);
                    }
                    assert(entries_view(s) =~= target);
                }
            },
            None => {
                proof {
                    assert(self@ =~= old(self)@.remove(key));
                }
            },
        }
    }

    /// Removes every component of an entity.
    pub fn remove_entity(&mut self, entity: u64)
        requires
            old(self).wf(),
        ensures
            final(self).wf(),
            final(self)@ == without_entity(old(self)@, entity),
    {
        let ghost old_entries = self.entries@;
        proof {
            lemma_view_index(old_entries);
        }
        let mut old_store: Vec<ComponentEntry> = Vec::new();
        std::mem::swap(&mut old_store, &mut self.entries);
        let n = old_store.len();
        let mut rest: Vec<ComponentEntry> = Vec::new();
        while old_store.len() > 0
            invariant
                n == old_entries.len(),
                old_store@.len() + rest@.len() == n,
                forall|j: int| 0 <= j < old_store@.len() ==> #[trigger] old_store@[j] == old_entries[j],
                forall|j: int| 0 <= j < rest@.len() ==> #[trigger] rest@[j] == old_entries[n - 1 - j],
            decreases old_store@.len(),
        {
            let e = old_store.pop().unwrap();
            rest.push(e);
        }
        let mut kept: Vec<ComponentEntry> = Vec::new();
        let ghost mut origin: Seq<int> = Seq::empty();
        let mut i: usize = 0;
        while i < n
            invariant
                n == old_entries.len(),
                i <= n,
                rest@.len() == n - i,
                forall|j: int| 0 <= j < n - i ==> #[trigger] rest@[j] == old_entries[n - 1 - j],
                origin.len() == kept@.len(),
                forall|j: int| 0 <= j < kept@.len() ==> 0 <= #[trigger] origin[j] < i && kept@[j] == old_entries[origin[j]],
                forall|a: int, b: int| 0 <= a < b < kept@.len() ==> #[trigger] origin[a] < #[trigger] origin[b],
                forall|j: int| 0 <= j < kept@.len() ==> (#[trigger] kept@[j]).entity != entity,
                forall|j: int| 0 <= j < i && (#[trigger] old_entries[j]).entity != entity ==> exists|a: int|
                    0 <= a < kept@.len() && origin[a] == j,
                keys_unique(old_entries),
            decreases n - i,
        {
            let e = rest.pop().unwrap();
            proof {
                assert(e == old_entries[i as int]);
            }
            let ghost old_kept = kept@;
            let ghost old_origin = origin;
            if e.entity != entity {
                kept.push(e);
                proof {
                    origin = origin.push(i as int);
                }
            }
            proof {
                assert forall|j: int| 0 <= j < i + 1 && (#[trigger] old_entries[j]).entity != entity implies exists|a: int|
                    0 <= a < kept@.len() && origin[a] == j by {
                    if j < i {
                        let a = choose|a: int| 0 <= a < old_kept.len() && old_origin[a] == j;
                        assert(origin[a] == old_origin[a]);
                    } else {
                        assert(origin[kept@.len() - 1] == j);
                    }
                }
            }
            i = i + 1;
        }
        proof {
            let s = kept@;
            assert(keys_unique(s)) by {
                assert forall|a: int, b: int| 0 <= a < s.len() && 0 <= b < s.len() && a != b implies entry_key(s[a])
                    != entry_key(s[b]) by {
                    if a < b {
                        assert(origin[a] < origin[b]);
                    } else {
                        assert(origin[b] < origin[a]);
                    }
                }
            }
            lemma_view_index(s);
            let target = without_entity(entries_view(old_entries), entity);
            assert forall|k: (u64, Seq<char>)| #[trigger] entries_view(s).contains_key(k) <==> target.contains_key(k) by {
                if entries_view(s).contains_key(k) {
                    let j = choose|j: int| 0 <= j < s.len() && entry_key(#[trigger] s[j]) == k;
                    assert(s[j] == old_entries[origin[j]]);
                    assert(entries_view(old_entries).contains_key(entry_key(old_entries[origin[j]])));
                }
                if target.contains_key(k) {
                    let j0 = choose|j: int| 0 <= j < old_entries.len() && entry_key(#[trigger] old_entries[j]) == k;
                    assert(old_entries[j0].entity != entity);
                    let a = choose|a: int| 0 <= a < kept@.len() && origin[a] == j0;
                    assert(s[a] == old_entries[j0]);
                }
            }
            assert forall|k: (u64, Seq<char>)| #[trigger] entries_view(s).contains_key(k) implies entries_view(s)[k] == target[k] by {
                let j = choose|j: int| 0 <= j < s.len() && entry_key(#[trigger] s[j]) == k;
                assert(s[j] == old_entries[origin[j]]);
            }
            assert(entries_view(s) =~= target);
        }
        self.entries = kept;
    }

    /// Applies one sync item from the server.
    pub fn apply(&mut self, item: SyncItem)
        requires
            old(self).wf(),
        ensures
            final(self).wf(),
            final(self)@ == spec_apply(old(self)@, item),
    {
        match item {
            SyncItem::Snapshot { entity, component_type, value, .. } => {
                self.insert(entity, component_type, value);
            },
            SyncItem::Update { entity, component_type, value, .. } => {
                self.insert(entity, component_type, value);
            },
            SyncItem::ComponentRemoved { entity, component_type, .. } => {
                self.remove(entity, component_type.as_str());
            },
            SyncItem::EntityRemoved { entity, .. } => {
                self.remove_entity(entity);
            },
        }
    }

    /// Applies the items of a batch from the server, in order.
    pub fn apply_batch(&mut self, items: Vec<SyncItem>)
        requires
            old(self).wf(),
        ensures
            final(self).wf(),
            final(self)@ == spec_apply_all(old(self)@, items@),
    {
        let mut rest = items;
        while rest.len() > 0
            invariant
                self.wf(),
                spec_apply_all(self@, rest@) == spec_apply_all(old(self)@, items@),
            decreases rest@.len(),
        {
            let ghost before = rest@;
            let item = rest.remove(0);
            proof {
                assert(rest@ =~= before.skip(1));
            }
            self.apply(item);
        }
    }

    /// The entities that have a component, with its bytes, in store order;
    /// every such entity appears once.
    pub fn component_entries(&self, component: &str) -> (r: Vec<(u64, Vec<u8>)>)
        requires
            self.wf(),
        ensures
            forall|j: int| 0 <= j < r@.len() ==> self@.contains_key(((#[trigger] r@[j]).0, component@))
                && self@[(r@[j].0, component@)] == r@[j].1@,
            forall|e: u64| #[trigger] self@.contains_key((e, component@)) ==> exists|j: int| 0 <= j < r@.len() && (#[trigger] r@[j]).0 == e,
            forall|a: int, b: int| 0 <= a < r@.len() && 0 <= b < r@.len() && a != b ==> (#[trigger] r@[a]).0 != (#[trigger] r@[b]).0,
    {
        proof {
            lemma_view_index(self.entries@);
        }
        let s = &self.entries;
        let wanted = component.to_owned();
        let n = s.len();
        let mut out: Vec<(u64, Vec<u8>)> = Vec::new();
        let ghost mut origin: Seq<int> = Seq::empty();
        let mut i: usize = 0;
        while i < n
            invariant
                n == s@.len(),
                i <= n,
                keys_unique(s@),
                s@ == self.entries@,
                wanted@ == component@,
                origin.len() == out@.len(),
                forall|j: int| 0 <= j < out@.len() ==> 0 <= #[trigger] origin[j] < i && (out@[j].0, component@)
                    == entry_key(s@[origin[j]]) && out@[j].1@ == s@[origin[j]].value@,
                forall|a: int, b: int| 0 <= a < b < out@.len() ==> #[trigger] origin[a] < #[trigger] origin[b],
                forall|j: int| 0 <= j < i && (#[trigger] s@[j]).component@ == component@ ==> exists|a: int|
                    0 <= a < out@.len() && origin[a] == j,
            decreases n - i,
        {
            let e = &s[i];
            let ghost old_out = out@;
            let ghost old_origin = origin;
            if e.component == wanted {
                let bytes = copy_range(e.value.as_slice(), 0, e.value.len());
                proof {
                    assert(bytes@ =~= s@[i as int].value@);
                }
                out.push((e.entity, bytes));
                proof {
                    origin = origin.push(i as int);
                    assert forall|j: int| 0 <= j < out@.len() implies 0 <= #[trigger] origin[j] < i + 1 && (out@[j].0, component@)
                        == entry_key(s@[origin[j]]) && out@[j].1@ == s@[origin[j]].value@ by {
                        if j < old_out.len() {
                            assert(out@[j] == old_out[j]);
                            assert(origin[j] == old_origin[j]);
                        }
                    }
                }
            }
            proof {
                assert forall|j: int| 0 <= j < i + 1 && (#[trigger] s@[j]).component@ == component@ implies exists|a: int|
                    0 <= a < out@.len() && origin[a] == j by {
                    if j < i {
                        let a = choose|a: int| 0 <= a < old_out.len() && old_origin[a] == j;
                        assert(origin[a] == old_origin[a]);
                    } else {
                        assert(origin[out@.len() - 1] == j);
                    }
                }
            }
            i = i + 1;
        }
        proof {
            assert forall|j: int| 0 <= j < out@.len() implies self@.contains_key(((#[trigger] out@[j]).0, component@))
                && self@[(out@[j].0, component@)] == out@[j].1@ by {
                let o = origin[j];
                assert(entries_view(s@).contains_key(entry_key(s@[o])));
            }
            assert forall|e: u64| #[trigger] self@.contains_key((e, component@)) implies exists|j: int| 0 <= j < out@.len()
                && (#[trigger] out@[j]).0 == e by {
                let j0 = choose|j: int| 0 <= j < s@.len() && entry_key(#[trigger] s@[j]) == (e, component@);
                assert(s@[j0].component@ == component@);
                let a = choose|a: int| 0 <= a < out@.len() && origin[a] == j0;
                assert(out@[a].0 == e);
            }
            assert forall|a: int, b: int| 0 <= a < out@.len() && 0 <= b < out@.len() && a != b implies (#[trigger] out@[a]).0
                != (#[trigger] out@[b]).0 by {
                if a < b {
                    assert(origin[a] < origin[b]);
                } else {
                    assert(origin[b] < origin[a]);
                }
                assert(entry_key(s@[origin[a]]) != entry_key(s@[origin[b]]));
            }
        }
        out
    }
}

/// Each sync item touches only its own keys: a snapshot or an update sets
/// the value of its (entity, component type) and keeps every other key; a
/// removed component drops exactly that key, so other components of the
/// same entity stay; a removed entity drops exactly the keys of that
/// entity.
pub proof fn law_sync_items_touch_only_their_keys(
    m: Map<(u64, Seq<char>), Seq<u8>>,
    subscription_id: u64,
    entity: u64,
    component_type: String,
    value: Vec<u8>,
    k: (u64, Seq<char>),
)
    ensures
        ({
            let after = spec_apply(
                m,
                SyncItem::Snapshot { subscription_id, entity, component_type, value },
            );
            &&& after.contains_key((entity, component_type@)) && after[(entity, component_type@)] == value@
            &&& k != (entity, component_type@) ==> (after.contains_key(k) == m.contains_key(k)
                && (m.contains_key(k) ==> after[k] == m[k]))
        }),
        ({
            let after = spec_apply(
                m,
                SyncItem::Update { subscription_id, entity, component_type, value },
            );
            &&& after.contains_key((entity, component_type@)) && after[(entity, component_type@)] == value@
            &&& k != (entity, component_type@) ==> (after.contains_key(k) == m.contains_key(k)
                && (m.contains_key(k) ==> after[k] == m[k]))
        }),
        ({
            let after = spec_apply(m, SyncItem::ComponentRemoved { subscription_id, entity, component_type });
            &&& !after.contains_key((entity, component_type@))
            &&& k != (entity, component_type@) ==> (after.contains_key(k) == m.contains_key(k)
                && (m.contains_key(k) ==> after[k] == m[k]))
        }),
        ({
            let after = spec_apply(m, SyncItem::EntityRemoved { subscription_id, entity });
            &&& after.contains_key(k) == (m.contains_key(k) && k.0 != entity)
            &&& after.contains_key(k) ==> after[k] == m[k]
        }),
{
}

/// How the server splits sync items into batches does not matter: applying
/// two batches one after the other is applying their concatenation.
pub proof fn law_batches_compose(m: Map<(u64, Seq<char>), Seq<u8>>, first: Seq<SyncItem>, second: Seq<SyncItem>)
    ensures
        spec_apply_all(spec_apply_all(m, first), second) == spec_apply_all(m, first + second),
    decreases first.len(),
{
    if first.len() == 0 {
        assert(first + second =~= second);
    } else {
        law_batches_compose(spec_apply(m, first[0]), first.skip(1), second);
        assert((first + second).skip(1) =~= first.skip(1) + second);
        assert((first + second)[0] == first[0]);
    }
}

/// A value written for a key is what a read of that key gives, until the
/// key (or its entity) is removed; removing an entity leaves the components
/// of other entities as they were.
pub proof fn law_store_read_after_write(
    m: Map<(u64, Seq<char>), Seq<u8>>,
    entity: u64,
    component: Seq<char>,
    value: Seq<u8>,
    other: u64,
)
    requires
        other != entity,
    ensures
        m.insert((entity, component), value)[(entity, component)] == value,
        !m.insert((entity, component), value).remove((entity, component)).contains_key((entity, component)),
        !without_entity(m, entity).contains_key((entity, component)),
        without_entity(m, entity).contains_key((other, component)) == m.contains_key((other, component)),
        m.contains_key((other, component)) ==> without_entity(m, entity)[(other, component)] == m[(other, component)],
{
}

} // verus!
