//! The state of a synchronizing client, apart from its reactive views and
//! its transport: subscriptions, component data, mutations, requests and
//! broadcast messages, and the packets it sends.

use vstd::prelude::*;
use crate::control::ConnectionId;
use crate::frame::NetworkPacket;
use crate::frame::PacketView;
use crate::names::TargetedMessage;
use crate::names::request_type_path;
use crate::names::schema_hash_of;
use crate::names::spec_schema_hash;
use crate::names::spec_short_name;
use crate::routing::IncomingMessages;
use crate::routing::PacketRoute;
use crate::frame::bincode_u64_decoding;
use crate::routing::route_packet;
use crate::routing::spec_route;
use crate::routing::split_response;
use crate::store::ComponentStore;
use crate::store::SyncItem;
use crate::store::spec_apply;
use crate::store::spec_apply_all;
use crate::query::QueryInvalidations;
use crate::query_cache::CachedQuery;
use crate::query_cache::QueryCache;
use crate::subscriptions::SubscriptionTracker;
use crate::subscriptions::can_increment;
use crate::subscriptions::spec_decrement;
use crate::subscriptions::spec_increment;
use crate::subscriptions::subscriptions_wf;
use crate::text::decimal_string;
use crate::text::digits;
use crate::tracking::MutationState;
use crate::tracking::MutationTracker;
use crate::tracking::RequestIds;
use crate::tracking::RequestState;
use crate::tracking::RequestStatus;
use crate::tracking::RequestTracker;

verus! {

/// The client's state. `S` is the protocol's mutation status.
#[verifier::reject_recursive_types(S)]
pub struct SyncState<S> {
    /// The connection id the server gave this client, once welcomed.
    pub my_connection_id: Option<ConnectionId>,
    pub subscriptions: SubscriptionTracker,
    pub components: ComponentStore,
    pub request_ids: RequestIds,
    pub mutations: MutationTracker<S>,
    pub requests: RequestTracker,
    pub incoming: IncomingMessages,
    /// The shared cache of query results.
    pub queries: QueryCache,
    /// Invalidation counters of the query types.
    pub invalidations: QueryInvalidations,
}

impl<S> SyncState<S> {
    /// The invariants of the parts.
    pub open spec fn wf(&self) -> bool {
        &&& subscriptions_wf(self.subscriptions@)
        &&& self.components.wf()
        &&& self.queries.wf()
        &&& self.invalidations.wf()
    }

    /// A client that has received nothing and sent nothing.
    pub fn new() -> (r: Self)
        ensures
            r.wf(),
            r.my_connection_id is None,
            r.subscriptions@.counts == Map::<Seq<char>, (u64, usize)>::empty(),
            r.subscriptions@.next_id == 0,
            r.components@ == Map::<(u64, Seq<char>), Seq<u8>>::empty(),
            r.request_ids.next == 1,
            r.mutations@ == Map::<u64, MutationState<S>>::empty(),
            r.requests@ == Map::<u64, RequestState>::empty(),
            r.incoming@ == Map::<Seq<char>, Seq<u8>>::empty(),
            r.queries@ == Map::<(Seq<char>, Seq<char>), CachedQuery>::empty(),
            r.invalidations@ == Map::<Seq<char>, u64>::empty(),
    {
        SyncState {
            my_connection_id: None,
            subscriptions: SubscriptionTracker::new(),
            components: ComponentStore::new(),
            request_ids: RequestIds::new(),
            mutations: MutationTracker::new(),
            requests: RequestTracker::new(),
            incoming: IncomingMessages::new(),
            queries: QueryCache::new(),
            invalidations: QueryInvalidations::new(),
        }
    }

    /// Records the id of this client's connection (the server's welcome).
    pub fn welcome(&mut self, connection_id: ConnectionId)
        ensures
            final(self).my_connection_id == Some(connection_id),
            final(self).subscriptions == old(self).subscriptions,
            final(self).components == old(self).components,
            final(self).request_ids == old(self).request_ids,
            final(self).mutations == old(self).mutations,
            final(self).requests == old(self).requests,
            final(self).incoming == old(self).incoming,
            final(self).queries == old(self).queries,
            final(self).invalidations == old(self).invalidations,
    {
        self.my_connection_id = Some(connection_id);
    }

    /// A view subscribes to a component type. Returns true when it is the
    /// first subscriber (a subscription request is due).
    pub fn subscribe(&mut self, component_name: &str) -> (first: bool)
        requires
            old(self).wf(),
            can_increment(old(self).subscriptions@, component_name@),
        ensures
            final(self).wf(),
            (final(self).subscriptions@, first) == spec_increment(old(self).subscriptions@, component_name@),
            final(self).components == old(self).components,
    {
        self.subscriptions.increment(component_name)
    }

    /// A view leaves. Returns the subscription id when it was the last
    /// subscriber (an unsubscribe request is due).
    pub fn unsubscribe(&mut self, component_name: &str) -> (last: Option<u64>)
        requires
            old(self).wf(),
        ensures
            final(self).wf(),
            (final(self).subscriptions@, last) == spec_decrement(old(self).subscriptions@, component_name@),
            final(self).components == old(self).components,
    {
        self.subscriptions.decrement(component_name)
    }

    /// Applies a sync item from the server to the component data.
    pub fn apply_sync_item(&mut self, item: SyncItem)
        requires
            old(self).wf(),
        ensures
            final(self).wf(),
            final(self).components@ == spec_apply(old(self).components@, item),
            final(self).subscriptions == old(self).subscriptions,
    {
        self.components.apply(item);
    }

    /// Applies the items of a sync batch from the server, in order.
    pub fn apply_batch(&mut self, items: Vec<SyncItem>)
        requires
            old(self).wf(),
        ensures
            final(self).wf(),
            final(self).components@ == spec_apply_all(old(self).components@, items@),
            final(self).subscriptions == old(self).subscriptions,
    {
        self.components.apply_batch(items);
    }

    /// Records the server's response to a mutation: a response that names
    /// a request sets that mutation's status and message (tracking it if it
    /// was unknown); one that names none changes nothing.
    pub fn handle_mutation_response(&mut self, request_id: Option<u64>, status: S, message: Option<String>)
        ensures
            match request_id {
                Some(id) => final(self).mutations@ == old(self).mutations@.insert(
                    id,
                    MutationState { request_id: id, status: Some(status), message },
                ),
                None => final(self).mutations@ == old(self).mutations@,
            },
            final(self).requests == old(self).requests,
            final(self).components == old(self).components,
            final(self).subscriptions == old(self).subscriptions,
    {
        self.mutations.record_response(request_id, status, message);
    }

    /// Starts a mutation: takes a request id and tracks the mutation as
    /// pending.
    pub fn begin_mutation(&mut self) -> (id: u64)
        requires
            old(self).request_ids.next < u64::MAX,
        ensures
            id == old(self).request_ids.next,
            final(self).request_ids.next == id + 1,
            final(self).mutations@ == old(self).mutations@.insert(
                id,
                MutationState::<S> { request_id: id, status: None, message: None },
            ),
            final(self).requests == old(self).requests,
            final(self).components == old(self).components,
            final(self).subscriptions == old(self).subscriptions,
    {
        let id = self.request_ids.allocate();
        self.mutations.insert_pending(id);
        id
    }

    /// A mutation whose value could not be serialized: takes a request id
    /// and records the mutation as failed with the given status and
    /// message; nothing is sent.
    pub fn begin_failed_mutation(&mut self, status: S, message: String) -> (id: u64)
        requires
            old(self).request_ids.next < u64::MAX,
        ensures
            id == old(self).request_ids.next,
            final(self).request_ids.next == id + 1,
            final(self).mutations@ == old(self).mutations@.insert(
                id,
                MutationState::<S> { request_id: id, status: Some(status), message: Some(message) },
            ),
            final(self).requests == old(self).requests,
            final(self).components == old(self).components,
            final(self).subscriptions == old(self).subscriptions,
    {
        let id = self.request_ids.allocate();
        self.mutations.record(id, status, Some(message));
        id
    }

    /// Starts a request whose response has the given type name: takes a
    /// request id and tracks the request as pending.
    pub fn begin_request(&mut self, response_type: String) -> (id: u64)
        requires
            old(self).request_ids.next < u64::MAX,
        ensures
            id == old(self).request_ids.next,
            final(self).request_ids.next == id + 1,
            final(self).requests@ == old(self).requests@.insert(
                id,
                RequestState { request_id: id, response_type, status: RequestStatus::Pending, response_bytes: None },
            ),
            final(self).mutations == old(self).mutations,
            final(self).components == old(self).components,
            final(self).subscriptions == old(self).subscriptions,
    {
        let id = self.request_ids.allocate();
        self.requests.insert_pending(id, response_type);
        id
    }

    /// Routes an incoming packet. A request response is recorded for its
    /// request; any other non-synchronization message is stored as the
    /// latest payload of its type. Synchronization messages are left to the
    /// caller, which decodes them. Returns the route taken.
    pub fn handle_packet(&mut self, packet: &NetworkPacket) -> (route: PacketRoute)
        ensures
            route == spec_route(packet.type_path@),
            route == PacketRoute::SyncServer ==> final(self).requests == old(self).requests
                && final(self).incoming == old(self).incoming,
            route == PacketRoute::Response ==> final(self).incoming == old(self).incoming && match bincode_u64_decoding(
                packet.data@,
            ) {
                Some((id, n)) => if old(self).requests@.contains_key(id) {
                    final(self).requests@ == old(self).requests@.insert(
                        id,
                        RequestState {
                            status: RequestStatus::Success,
                            response_bytes: final(self).requests@[id].response_bytes,
                            ..old(self).requests@[id]
                        },
                    ) && (final(self).requests@[id].response_bytes matches Some(b) && b@ == packet.data@.skip(
                        n as int,
                    ))
                } else {
                    final(self).requests@ == old(self).requests@
                },
                None => final(self).requests@ == old(self).requests@,
            },
            route == PacketRoute::Message ==> final(self).requests == old(self).requests
                && final(self).incoming@ == old(self).incoming@.insert(
                spec_short_name(packet.type_path@),
                packet.data@,
            ),
            final(self).components == old(self).components,
            final(self).subscriptions == old(self).subscriptions,
            final(self).mutations == old(self).mutations,
            final(self).request_ids == old(self).request_ids,
            final(self).my_connection_id == old(self).my_connection_id,
    {
        let route = route_packet(packet.type_path.as_str());
        match route {
            PacketRoute::SyncServer => {},
            PacketRoute::Response => {
                match split_response(packet.data.as_slice()) {
                    Some((id, rest)) => {
                        self.requests.handle_response(id, rest);
                    },
                    None => {},
                }
            },
            PacketRoute::Message => {
                let data = crate::bytes::copy_suffix(packet.data.as_slice(), 0);
                proof {
                    assert(data@ =~= packet.data@);
                }
                self.incoming.record(packet.type_path.as_str(), data);
            },
        }
        route
    }
}

/// The packet of a typed message: its full type path, the schema hash of
/// that path, and the serialized message.
pub fn message_packet(type_path: &str, payload: Vec<u8>) -> (p: NetworkPacket)
    ensures
        p@ == (PacketView { type_path: type_path@, schema_hash: spec_schema_hash(type_path@), data: payload@ }),
{
    NetworkPacket { type_path: type_path.to_owned(), schema_hash: schema_hash_of(type_path), data: payload }
}

/// The target id of an entity: its bits in decimal.
pub fn target_id_of(entity_bits: u64) -> (r: String)
    ensures
        r@ == digits(entity_bits as nat, 10),
{
    decimal_string(entity_bits)
}

/// The packet of a message targeted at an entity: named
/// `Targeted(<inner path>)`, with the schema hash of the inner message, and
/// the serialized targeted message.
pub fn targeted_packet(inner_path: &str, payload: Vec<u8>) -> (p: NetworkPacket)
    ensures
        p@ == (PacketView {
            type_path: "Targeted("@ + inner_path@ + ")"@,
            schema_hash: spec_schema_hash(inner_path@),
            data: payload@,
        }),
{
    NetworkPacket {
        type_path: TargetedMessage::<()>::name(inner_path),
        schema_hash: schema_hash_of(inner_path),
        data: payload,
    }
}

/// The packet of a request with the full type path `inner_path`, wrapped
/// with its correlation id: named after the server's request wrapper, with
/// the schema hash of the request type.
pub fn request_packet(inner_path: &str, payload: Vec<u8>) -> (p: NetworkPacket)
    ensures
        p@ == (PacketView {
            type_path: "pl3xus::managers::network_request::RequestInternal<"@ + inner_path@ + ">"@,
            schema_hash: spec_schema_hash(inner_path@),
            data: payload@,
        }),
{
    NetworkPacket { type_path: request_type_path(inner_path), schema_hash: schema_hash_of(inner_path), data: payload }
}

} // verus!
