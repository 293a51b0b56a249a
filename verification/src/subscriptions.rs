//! Shared subscriptions: many views of one component type share a single
//! server subscription, counted by reference. The first subscriber
//! allocates a subscription id (and a request is sent); the last one to
//! leave releases it (and an unsubscribe request is sent).

use vstd::prelude::*;
use vstd::hash_map::StringHashMap;

verus! {

/// Model of the subscription table: component type name to
/// (subscription id, number of subscribers), and the next id to allocate.
pub struct SubscriptionsView {
    pub counts: Map<Seq<char>, (u64, usize)>,
    pub next_id: u64,
}

/// Every tracked component type has at least one subscriber.
pub open spec fn subscriptions_wf(v: SubscriptionsView) -> bool {
    &&& v.counts.dom().finite()
    &&& forall|name: Seq<char>| #[trigger] v.counts.contains_key(name) ==> v.counts[name].1 >= 1
}

/// The machine limits under which a subscriber can be added: a new type
/// needs a fresh id, a known type one more count.
pub open spec fn can_increment(v: SubscriptionsView, name: Seq<char>) -> bool {
    if v.counts.contains_key(name) {
        v.counts[name].1 < usize::MAX
    } else {
        v.next_id < u64::MAX
    }
}

/// Adding a subscriber: the new table, and whether it is the first
/// subscriber of that type.
pub open spec fn spec_increment(v: SubscriptionsView, name: Seq<char>) -> (SubscriptionsView, bool) {
    if v.counts.contains_key(name) {
        let (id, count) = v.counts[name];
        (SubscriptionsView { counts: v.counts.insert(name, (id, (count + 1) as usize)), next_id: v.next_id }, false)
    } else {
        (
            SubscriptionsView {
                counts: v.counts.insert(name, (v.next_id, 1usize)),
                next_id: (v.next_id + 1) as u64,
            },
            true,
        )
    }
}

/// Removing a subscriber: the new table, and the subscription id when it
/// was the last subscriber of that type.
pub open spec fn spec_decrement(v: SubscriptionsView, name: Seq<char>) -> (SubscriptionsView, Option<u64>) {
    if v.counts.contains_key(name) {
        let (id, count) = v.counts[name];
        if count <= 1 {
            (SubscriptionsView { counts: v.counts.remove(name), next_id: v.next_id }, Some(id))
        } else {
            (
                SubscriptionsView { counts: v.counts.insert(name, (id, (count - 1) as usize)), next_id: v.next_id },
                None,
            )
        }
    } else {
        (v, None)
    }
}

/// Reference-counted subscriptions by component type name.
pub struct SubscriptionTracker {
    subscriptions: StringHashMap<(u64, usize)>,
    next_subscription_id: u64,
}

impl View for SubscriptionTracker {
    type V = SubscriptionsView;

    closed spec fn view(&self) -> SubscriptionsView {
        SubscriptionsView { counts: self.subscriptions@, next_id: self.next_subscription_id }
    }
}

impl SubscriptionTracker {
    /// An empty table whose first subscription id is 0.
    pub fn new() -> (r: Self)
        ensures
            r@.counts == Map::<Seq<char>, (u64, usize)>::empty(),
            r@.next_id == 0,
            subscriptions_wf(r@),
    {
        SubscriptionTracker { subscriptions: StringHashMap::new(), next_subscription_id: 0 }
    }

    /// Adds a subscriber of `component_name`. Returns true when it is the
    /// first one (a new subscription id was allocated and a subscription
    /// request is due).
    pub fn increment(&mut self, component_name: &str) -> (first: bool)
        requires
            subscriptions_wf(old(self)@),
            can_increment(old(self)@, component_name@),
        ensures
            (final(self)@, first) == spec_increment(old(self)@, component_name@),
            subscriptions_wf(final(self)@),
    {
        match self.subscriptions.get(component_name) {
            Some(entry) => {
                let (id, count) = *entry;
                self.subscriptions.insert(component_name.to_owned(), (id, count + 1));
                false
            },
            None => {
                let id = self.next_subscription_id;
                self.next_subscription_id = id + 1;
                self.subscriptions.insert(component_name.to_owned(), (id, 1));
                true
            },
        }
    }

    /// Removes a subscriber of `component_name`. Returns the subscription id
    /// when it was the last one (the subscription is dropped and an
    /// unsubscribe request is due).
    pub fn decrement(&mut self, component_name: &str) -> (last: Option<u64>)
        requires
            subscriptions_wf(old(self)@),
        ensures
            (final(self)@, last) == spec_decrement(old(self)@, component_name@),
            subscriptions_wf(final(self)@),
    {
        match self.subscriptions.get(component_name) {
            Some(entry) => {
                let (id, count) = *entry;
                if count <= 1 {
                    self.subscriptions.remove(component_name);
                    Some(id)
                } else {
                    self.subscriptions.insert(component_name.to_owned(), (id, count - 1));
                    None
                }
            },
            None => None,
        }
    }

    /// The subscription id of a component type, or 0 when it has none.
    pub fn subscription_id(&self, component_name: &str) -> (id: u64)
        ensures
            id == (if self@.counts.contains_key(component_name@) {
                self@.counts[component_name@].0
            } else {
                0
            }),
    {
        match self.subscriptions.get(component_name) {
            Some(entry) => entry.0,
            None => 0,
        }
    }

    /// The number of subscribers of a component type.
    pub fn subscriber_count(&self, component_name: &str) -> (count: usize)
        ensures
            count == (if self@.counts.contains_key(component_name@) {
                self@.counts[component_name@].1
            } else {
                0
            }),
    {
        match self.subscriptions.get(component_name) {
            Some(entry) => entry.1,
            None => 0,
        }
    }
}

/// A subscriber that arrives and then leaves restores the table (only the
/// id counter has moved on), and it is told it was the last one exactly
/// when it was the first one; it then receives the id it was given.
pub proof fn law_subscribe_then_unsubscribe(v: SubscriptionsView, name: Seq<char>)
    requires
        subscriptions_wf(v),
        can_increment(v, name),
    ensures
        ({
            let (v1, first) = spec_increment(v, name);
            let (v2, last) = spec_decrement(v1, name);
            &&& v2.counts =~= v.counts
            &&& first <==> last is Some
            &&& first ==> last == Some(v.next_id)
            &&& subscriptions_wf(v1)
            &&& subscriptions_wf(v2)
        }),
{
    let (v1, first) = spec_increment(v, name);
    if v.counts.contains_key(name) {
        assert(v.counts[name].1 >= 1);
        assert(v1.counts.insert(name, v.counts[name]) =~= v.counts);
    } else {
        assert(v1.counts.remove(name) =~= v.counts);
    }
}

/// Subscription ids handed out to first subscribers never repeat while the
/// counter has not wrapped: a first subscriber gets the current counter,
/// and the counter only grows.
pub proof fn law_fresh_subscription_ids(v: SubscriptionsView, name: Seq<char>)
    requires
        subscriptions_wf(v),
        can_increment(v, name),
    ensures
        spec_increment(v, name).1 ==> spec_increment(v, name).0.counts[name].0 == v.next_id
            && spec_increment(v, name).0.next_id == v.next_id + 1,
        !spec_increment(v, name).1 ==> spec_increment(v, name).0.next_id == v.next_id,
        spec_decrement(v, name).0.next_id == v.next_id,
{
}

/// The table after `m` subscribers of one type arrive.
pub open spec fn repeat_increment(v: SubscriptionsView, name: Seq<char>, m: nat) -> SubscriptionsView
    decreases m,
{
    if m == 0 {
        v
    } else {
        spec_increment(repeat_increment(v, name, (m - 1) as nat), name).0
    }
}

/// The table after `j` subscribers of one type leave, with what the last
/// of them was told (`None` when none left).
pub open spec fn repeat_decrement(v: SubscriptionsView, name: Seq<char>, j: nat) -> (SubscriptionsView, Option<u64>)
    decreases j,
{
    if j == 0 {
        (v, None)
    } else {
        spec_decrement(repeat_decrement(v, name, (j - 1) as nat).0, name)
    }
}

proof fn lemma_repeat_increment(v: SubscriptionsView, name: Seq<char>, m: nat)
    requires
        subscriptions_wf(v),
        !v.counts.contains_key(name),
        v.next_id < u64::MAX,
        1 <= m <= usize::MAX,
    ensures
        repeat_increment(v, name, m).counts == v.counts.insert(name, (v.next_id, m as usize)),
        repeat_increment(v, name, m).next_id == v.next_id + 1,
        subscriptions_wf(repeat_increment(v, name, m)),
        forall|i: nat| i < m ==> can_increment(#[trigger] repeat_increment(v, name, i), name),
    decreases m,
{
    if m == 1 {
        assert(repeat_increment(v, name, 0) == v);
    } else {
        lemma_repeat_increment(v, name, (m - 1) as nat);
        let w = repeat_increment(v, name, (m - 1) as nat);
        assert(w.counts[name] == (v.next_id, (m - 1) as usize));
        assert(repeat_increment(v, name, m).counts =~= v.counts.insert(name, (v.next_id, m as usize)));
        assert forall|i: nat| i < m implies can_increment(#[trigger] repeat_increment(v, name, i), name) by {
            if i == 0 {
                assert(repeat_increment(v, name, 0) == v);
            } else if i < m - 1 {
            } else {
                assert(i == m - 1);
            }
        }
    }
}

proof fn lemma_repeat_decrement(v: SubscriptionsView, name: Seq<char>, id: u64, m: nat, j: nat)
    requires
        subscriptions_wf(v),
        v.counts.contains_key(name),
        v.counts[name] == (id, m as usize),
        1 <= m <= usize::MAX,
        1 <= j <= m,
    ensures
        j < m ==> repeat_decrement(v, name, j).1 is None && repeat_decrement(v, name, j).0.counts == v.counts.insert(
            name,
            (id, (m - j) as usize),
        ),
        j == m ==> repeat_decrement(v, name, j).1 == Some(id) && repeat_decrement(v, name, j).0.counts
            == v.counts.remove(name),
        repeat_decrement(v, name, j).0.next_id == v.next_id,
    decreases j,
{
    if j == 1 {
        assert(repeat_decrement(v, name, 0) == (v, None::<u64>));
        if m > 1 {
            assert(repeat_decrement(v, name, 1).0.counts =~= v.counts.insert(name, (id, (m - 1) as usize)));
        }
    } else {
        lemma_repeat_decrement(v, name, id, m, (j - 1) as nat);
        let w = repeat_decrement(v, name, (j - 1) as nat).0;
        assert(w.counts[name] == (id, (m - (j - 1)) as usize));
        if j < m {
            assert(repeat_decrement(v, name, j).0.counts =~= v.counts.insert(name, (id, (m - j) as usize)));
        } else {
            assert(repeat_decrement(v, name, j).0.counts =~= v.counts.remove(name));
        }
    }
}

/// Views of one component type share one subscription: when `m` views
/// subscribe to a type that had none, only the first is told to send a
/// subscription request, and all share the id it got; when `j` of them
/// leave, only the last to leave (the `m`-th) is told the id to
/// unsubscribe, and the table is then as before, apart from the id
/// counter, so a later subscriber gets a new id.
pub proof fn law_shared_subscription(v: SubscriptionsView, name: Seq<char>, m: nat, j: nat)
    requires
        subscriptions_wf(v),
        !v.counts.contains_key(name),
        v.next_id < u64::MAX,
        1 <= m <= usize::MAX,
        1 <= j <= m,
    ensures
        spec_increment(v, name).1,
        forall|i: nat| 1 <= i < m ==> !(#[trigger] spec_increment(repeat_increment(v, name, i), name)).1,
        forall|i: nat| i < m ==> can_increment(#[trigger] repeat_increment(v, name, i), name),
        repeat_increment(v, name, m).counts[name] == (v.next_id, m as usize),
        repeat_increment(v, name, m).next_id == v.next_id + 1,
        ({
            let (after, last) = repeat_decrement(repeat_increment(v, name, m), name, j);
            &&& j < m ==> last is None && after.counts[name] == (v.next_id, (m - j) as usize)
            &&& j == m ==> last == Some(v.next_id) && after.counts == v.counts
            &&& j == m ==> spec_increment(after, name).1 && spec_increment(after, name).0.counts[name].0 != v.next_id
        }),
{
    lemma_repeat_increment(v, name, m);
    assert forall|i: nat| 1 <= i < m implies !(#[trigger] spec_increment(repeat_increment(v, name, i), name)).1 by {
        lemma_repeat_increment(v, name, i);
    }
    let top = repeat_increment(v, name, m);
    lemma_repeat_decrement(top, name, v.next_id, m, j);
    if j == m {
        assert(top.counts.remove(name) =~= v.counts);
    }
}

} // verus!
