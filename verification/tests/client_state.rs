use pl3xus::query::query_key;
use pl3xus::query::QueryInvalidations;
use pl3xus::query::QueryState;
use pl3xus::client::message_packet;
use pl3xus::client::request_packet;
use pl3xus::client::target_id_of;
use pl3xus::client::targeted_packet;
use pl3xus::client::SyncState;
use pl3xus::control::ConnectionId;
use pl3xus::frame::NetworkPacket;
use pl3xus::names::schema_hash_of;
use pl3xus::routing::outgoing_packet;
use pl3xus::routing::payload_hash;
use pl3xus::routing::payload_update;
use pl3xus::routing::route_packet;
use pl3xus::routing::split_response;
use pl3xus::routing::str_contains;
use pl3xus::routing::IncomingMessages;
use pl3xus::routing::PacketRoute;
use pl3xus::store::ComponentStore;
use pl3xus::store::SyncItem;
use pl3xus::subscriptions::SubscriptionTracker;
use pl3xus::tracking::MutationTracker;
use pl3xus::tracking::RequestIds;
use pl3xus::tracking::RequestPhase;
use pl3xus::tracking::RequestStatus;
use pl3xus::tracking::RequestTracker;
use pl3xus::tracking::UseRequestState;

#[test]
fn subscriptions_are_shared_and_released_by_the_last_subscriber() {
    let mut subs = SubscriptionTracker::new();
    assert!(subs.increment("Position"));
    assert!(!subs.increment("Position"));
    assert!(subs.increment("Velocity"));
    assert_eq!(subs.subscription_id("Position"), 0);
    assert_eq!(subs.subscription_id("Velocity"), 1);
    assert_eq!(subs.subscriber_count("Position"), 2);
    assert_eq!(subs.decrement("Position"), None);
    assert_eq!(subs.decrement("Position"), Some(0));
    assert_eq!(subs.subscriber_count("Position"), 0);
    assert_eq!(subs.subscription_id("Position"), 0);
    assert_eq!(subs.decrement("Position"), None);
    // A new subscription gets a fresh id.
    assert!(subs.increment("Position"));
    assert_eq!(subs.subscription_id("Position"), 2);
}

#[test]
fn request_ids_count_from_one() {
    let mut ids = RequestIds::new();
    assert_eq!(ids.allocate(), 1);
    assert_eq!(ids.allocate(), 2);
}

#[test]
fn mutation_tracking() {
    let mut m: MutationTracker<&'static str> = MutationTracker::new();
    m.insert_pending(1);
    assert!(m.state(1).unwrap().status.is_none());
    m.record_response(Some(1), "Ok", Some("done".to_string()));
    assert_eq!(m.state(1).unwrap().status, Some("Ok"));
    assert_eq!(m.state(1).unwrap().message.as_deref(), Some("done"));
    // Unknown ids are tracked by `record_response`, not by `update_tracked`.
    m.update_tracked(Some(9), "Ok", None);
    assert!(m.state(9).is_none());
    m.record_response(Some(9), "Forbidden", None);
    assert_eq!(m.state(9).unwrap().request_id, 9);
    m.update_tracked(Some(9), "Ok", None);
    assert_eq!(m.state(9).unwrap().status, Some("Ok"));
    m.record_response(None, "Ok", None);
    m.record(3, "InternalError", Some("Serialization failed".to_string()));
    assert_eq!(m.state(3).unwrap().status, Some("InternalError"));
}

#[test]
fn request_tracking_and_phases() {
    let mut r = RequestTracker::new();
    assert_eq!(r.phase(None), RequestPhase::Idle);
    assert_eq!(r.phase(Some(1)), RequestPhase::NotFound);
    r.insert_pending(1, "ResponseInternal<app::X>".to_string());
    assert_eq!(r.phase(Some(1)), RequestPhase::Loading);
    assert!(r.response_bytes(1).is_none());
    r.handle_response(1, vec![4, 2]);
    assert_eq!(r.phase(Some(1)), RequestPhase::Succeeded);
    assert_eq!(r.response_bytes(1), Some(&vec![4, 2]));
    r.insert_pending(2, "ResponseInternal<app::Y>".to_string());
    r.mark_error(2, "Serialization failed".to_string());
    assert_eq!(r.phase(Some(2)), RequestPhase::Failed("Serialization failed".to_string()));
    assert_eq!(r.state(2).unwrap().status, RequestStatus::Error("Serialization failed".to_string()));
    // Responses to unknown requests are ignored.
    r.handle_response(7, vec![1]);
    assert!(r.state(7).is_none());

    let idle: UseRequestState<u8> = UseRequestState::from_phase(RequestPhase::Idle, None);
    assert!(idle.is_idle() && !idle.is_loading() && !idle.is_success() && !idle.is_error());
    let loading: UseRequestState<u8> = UseRequestState::from_phase(RequestPhase::Loading, Some(1));
    assert!(loading.is_loading() && loading.data.is_none());
    let ok = UseRequestState::from_phase(RequestPhase::Succeeded, Some(5u8));
    assert!(ok.is_success() && ok.data == Some(5));
    let missing: UseRequestState<u8> = UseRequestState::from_phase(RequestPhase::NotFound, None);
    assert_eq!(missing.error.as_deref(), Some("Request not found"));
    let failed: UseRequestState<u8> = UseRequestState::from_phase(RequestPhase::Failed("x".to_string()), Some(1));
    assert!(failed.is_error() && failed.data.is_none());
}

fn snapshot(entity: u64, name: &str, value: Vec<u8>) -> SyncItem {
    SyncItem::Snapshot { subscription_id: 0, entity, component_type: name.to_string(), value }
}

#[test]
fn component_store_follows_sync_items() {
    let mut store = ComponentStore::new();
    store.apply(snapshot(1, "Position", vec![1]));
    store.apply(snapshot(2, "Position", vec![2]));
    store.apply(snapshot(1, "Velocity", vec![3]));
    store.apply(SyncItem::Update { subscription_id: 0, entity: 1, component_type: "Position".to_string(), value: vec![9] });
    assert_eq!(store.get(1, "Position"), Some(&vec![9]));
    let mut positions = store.component_entries("Position");
    positions.sort();
    assert_eq!(positions, vec![(1, vec![9]), (2, vec![2])]);

    store.apply(SyncItem::ComponentRemoved { subscription_id: 0, entity: 2, component_type: "Position".to_string() });
    assert_eq!(store.get(2, "Position"), None);
    store.apply(SyncItem::EntityRemoved { subscription_id: 0, entity: 1 });
    assert_eq!(store.get(1, "Position"), None);
    assert_eq!(store.get(1, "Velocity"), None);
    assert!(store.component_entries("Position").is_empty());
    store.apply(snapshot(3, "Velocity", vec![]));
    assert_eq!(store.component_entries("Velocity"), vec![(3, vec![])]);
}

#[test]
fn packet_routes() {
    assert_eq!(route_packet("pl3xus_sync::messages::SyncServerMessage"), PacketRoute::SyncServer);
    assert_eq!(route_packet("pl3xus::ResponseInternal<app::RobotList>"), PacketRoute::Response);
    assert_eq!(route_packet("app::ControlResponse"), PacketRoute::Message);
    assert!(str_contains("abc", ""));
    assert!(!str_contains("ab", "abc"));
    assert!(str_contains("xx::yy", "::"));
}

#[test]
fn response_split() {
    let mut data = bincode::serde::encode_to_vec(300u64, bincode::config::standard()).unwrap();
    data.extend_from_slice(&[7, 7]);
    assert_eq!(split_response(&data), Some((300, vec![7, 7])));
    assert_eq!(split_response(&[]), None);
    assert_eq!(split_response(&[5, 9]), Some((5, vec![9])));
    assert_eq!(split_response(&[251, 0x2c, 0x01, 4]), Some((300, vec![4])));
    assert_eq!(split_response(&[252, 1, 0, 0, 0]), Some((1, vec![])));
    assert_eq!(split_response(&[253, 1]), None);
    assert_eq!(split_response(&[254, 0]), None);
    assert_eq!(split_response(&[255]), None);
}

#[test]
fn outgoing_packets() {
    let real = NetworkPacket::new("app::Jog".to_string(), 5, vec![1]);
    let bytes = bincode::serde::encode_to_vec(("app::Jog", 5u64, vec![1u8]), bincode::config::standard()).unwrap();
    let p = outgoing_packet(&bytes, "pl3xus_sync::SyncClientMessage");
    assert_eq!((p.type_path.as_str(), p.schema_hash, p.data.clone()), (real.type_path.as_str(), 5, vec![1]));
    let raw = [3u8, 1, 2];
    let q = outgoing_packet(&raw, "pl3xus_sync::SyncClientMessage");
    assert_eq!(q.type_path, "pl3xus_sync::SyncClientMessage");
    assert_eq!(q.schema_hash, 0);
    assert_eq!(q.data, raw.to_vec());
}

#[test]
fn payload_change_detection() {
    assert_eq!(payload_hash(&[]), 0);
    assert_eq!(payload_hash(&[1]), 31);
    assert_eq!(payload_hash(&[1, 2]), (31 + 2) * 31);
    let h = payload_hash(&[1, 2]);
    assert_eq!(payload_update(&[], 0), None);
    assert_eq!(payload_update(&[1, 2], 0), Some(h));
    assert_eq!(payload_update(&[1, 2], h), None);
}

#[test]
fn incoming_messages_keep_the_latest_payload_by_short_name() {
    let mut inc = IncomingMessages::new();
    inc.record("pl3xus_common::ControlResponse", vec![1]);
    inc.record("other::ControlResponse", vec![2]);
    assert_eq!(inc.latest("ControlResponse"), Some(&vec![2]));
    assert_eq!(inc.latest("Missing"), None);
}

#[test]
fn client_state_round_trip() {
    let mut st: SyncState<&'static str> = SyncState::new();
    st.welcome(ConnectionId { id: 4 });
    assert_eq!(st.my_connection_id, Some(ConnectionId { id: 4 }));
    assert!(st.subscribe("Position"));
    assert!(!st.subscribe("Position"));
    assert_eq!(st.unsubscribe("Position"), None);
    assert_eq!(st.unsubscribe("Position"), Some(0));

    let m = st.begin_mutation();
    let r = st.begin_request("ResponseInternal<app::R>".to_string());
    assert_eq!((m, r), (1, 2));

    let mut data = bincode::serde::encode_to_vec(r, bincode::config::standard()).unwrap();
    data.extend_from_slice(&[42]);
    let resp = NetworkPacket::new("pl3xus::ResponseInternal<app::R>".to_string(), 0, data);
    assert_eq!(st.handle_packet(&resp), PacketRoute::Response);
    assert_eq!(st.requests.response_bytes(r), Some(&vec![42]));

    let msg = NetworkPacket::new("app::Notice".to_string(), 0, vec![8]);
    assert_eq!(st.handle_packet(&msg), PacketRoute::Message);
    assert_eq!(st.incoming.latest("Notice"), Some(&vec![8]));

    let sync = NetworkPacket::new("pl3xus_sync::SyncServerMessage".to_string(), 0, vec![]);
    assert_eq!(st.handle_packet(&sync), PacketRoute::SyncServer);

    st.apply_sync_item(snapshot(1, "Position", vec![1]));
    assert_eq!(st.components.get(1, "Position"), Some(&vec![1]));
}

#[test]
fn sent_packets() {
    let p = message_packet("app::Init", vec![1]);
    assert_eq!(p.type_path, "app::Init");
    assert_eq!(p.schema_hash, schema_hash_of("Init"));
    let t = targeted_packet("app::Jog", vec![2]);
    assert_eq!(t.type_path, "Targeted(app::Jog)");
    assert_eq!(t.schema_hash, schema_hash_of("app::Jog"));
    assert_eq!(target_id_of(4294967297), "4294967297");
    let q = request_packet("app::ListRobots", vec![3]);
    assert_eq!(q.type_path, "pl3xus::managers::network_request::RequestInternal<app::ListRobots>");
    assert_eq!(q.schema_hash, schema_hash_of("ListRobots"));
    assert_eq!(q.data, vec![3]);
}


#[test]
fn query_state_transitions() {
    let mut q: QueryState<u32> = QueryState::default();
    assert!(!q.is_loading() && !q.is_success() && !q.is_error());
    q.start_fetch();
    assert!(q.is_loading() && !q.is_stale);
    q.fetch_succeeded(7);
    assert!(q.is_success() && !q.is_fetching && q.data == Some(7));
    q.start_fetch();
    assert!(q.is_stale && !q.is_loading() && q.is_fetching);
    q.fetch_failed("timeout".to_string());
    assert!(q.is_error() && !q.is_success() && q.data == Some(7));
    q.clear();
    assert!(q.data.is_none() && q.error.is_none() && !q.is_fetching && !q.is_stale);
}

#[test]
fn query_keys_are_hex() {
    assert_eq!(query_key(&[]), "");
    assert_eq!(query_key(&[0, 1, 0xab, 0x10, 0xff]), "0001ab10ff");
}

#[test]
fn query_invalidation_counters() {
    let mut inv = QueryInvalidations::new();
    assert_eq!(inv.count("GetProgram"), 0);
    inv.invalidate("GetProgram");
    inv.invalidate("GetProgram");
    inv.invalidate("ListRobots");
    assert_eq!(inv.count("GetProgram"), 2);
    assert_eq!(inv.count("ListRobots"), 1);
    inv.invalidate_all();
    assert_eq!(inv.count("GetProgram"), 3);
    assert_eq!(inv.count("ListRobots"), 2);
    assert_eq!(inv.count("Other"), 0);
}

#[test]
fn batches_apply_in_order() {
    let mut st: SyncState<&'static str> = SyncState::new();
    st.apply_batch(vec![
        snapshot(1, "Position", vec![1]),
        snapshot(2, "Position", vec![2]),
        SyncItem::Update { subscription_id: 0, entity: 1, component_type: "Position".to_string(), value: vec![5] },
        SyncItem::EntityRemoved { subscription_id: 0, entity: 2 },
    ]);
    assert_eq!(st.components.get(1, "Position"), Some(&vec![5]));
    assert_eq!(st.components.get(2, "Position"), None);
    st.apply_batch(Vec::new());
    assert_eq!(st.components.get(1, "Position"), Some(&vec![5]));
}

#[test]
fn mutation_responses_are_recorded_even_for_unknown_ids() {
    let mut st: SyncState<&'static str> = SyncState::new();
    let id = st.begin_mutation();
    st.handle_mutation_response(Some(id), "Ok", None);
    assert_eq!(st.mutations.state(id).unwrap().status, Some("Ok"));
    st.handle_mutation_response(Some(77), "Denied", Some("no".to_string()));
    let s = st.mutations.state(77).unwrap();
    assert_eq!((s.request_id, s.status, s.message.as_deref()), (77, Some("Denied"), Some("no")));
    st.handle_mutation_response(None, "Ok", None);
    assert!(st.mutations.state(78).is_none());
}

#[test]
fn split_batches_give_the_same_store() {
    let items = || {
        vec![
            snapshot(1, "Position", vec![1]),
            SyncItem::ComponentRemoved { subscription_id: 0, entity: 1, component_type: "Position".to_string() },
            snapshot(2, "Velocity", vec![2]),
            SyncItem::Update { subscription_id: 0, entity: 2, component_type: "Velocity".to_string(), value: vec![3] },
        ]
    };
    let mut whole = ComponentStore::new();
    whole.apply_batch(items());
    let mut split = ComponentStore::new();
    let mut all = items();
    let second = all.split_off(2);
    split.apply_batch(all);
    split.apply_batch(second);
    for (e, c) in [(1, "Position"), (2, "Velocity"), (2, "Position")] {
        assert_eq!(whole.get(e, c), split.get(e, c));
    }
    assert_eq!(split.get(2, "Velocity"), Some(&vec![3]));
    assert_eq!(split.get(1, "Position"), None);
}

#[test]
fn many_views_share_one_subscription() {
    let mut subs = SubscriptionTracker::new();
    let firsts: Vec<bool> = (0..4).map(|_| subs.increment("Position")).collect();
    assert_eq!(firsts, vec![true, false, false, false]);
    assert_eq!(subs.subscription_id("Position"), 0);
    let lasts: Vec<Option<u64>> = (0..4).map(|_| subs.decrement("Position")).collect();
    assert_eq!(lasts, vec![None, None, None, Some(0)]);
    assert!(subs.increment("Position"));
    assert_eq!(subs.subscription_id("Position"), 1);
}

#[test]
fn failed_mutations_take_an_id_and_record_the_failure() {
    let mut st: SyncState<&'static str> = SyncState::new();
    let a = st.begin_failed_mutation("InternalError", "Serialization failed".to_string());
    let b = st.begin_mutation();
    assert_eq!((a, b), (1, 2));
    let s = st.mutations.state(a).unwrap();
    assert_eq!((s.status, s.message.as_deref()), (Some("InternalError"), Some("Serialization failed")));
    assert!(st.mutations.state(b).unwrap().status.is_none());
}
