use pl3xus::control::add_sub_connection;
use pl3xus::control::next_notification_sequence;
use pl3xus::control::ConnectionId;
use pl3xus::control::ControlResponse;
use pl3xus::control::ControlResponseKind;
use pl3xus::control::EntityControl;
use pl3xus::control::NotificationLevel;
use pl3xus::control::NotificationSequence;
use pl3xus::control::ServerNotification;
use pl3xus::sync_error::SyncError;
use pl3xus::text::decimal_string;
use pl3xus::text::hex_string;

#[test]
fn connection_id_server() {
    assert!(ConnectionId::server().is_server());
    assert!(ConnectionId { id: 0 }.is_server());
    assert!(!ConnectionId { id: 3 }.is_server());
    assert_eq!(ConnectionId { id: 42 }.describe(), "Connection with ID=42");
}

#[test]
fn entity_control_rules() {
    let c = |id| ConnectionId { id };
    let nobody = EntityControl::default();
    assert!(!nobody.is_controlled());
    assert!(!nobody.has_control(c(0)));

    let mut ctrl = EntityControl { client_id: c(5), sub_connection_ids: vec![c(7)], last_activity_bits: 0 };
    assert!(ctrl.is_controlled());
    assert!(ctrl.has_control(c(5)));
    assert!(ctrl.has_control(c(7)));
    assert!(!ctrl.has_control(c(6)));

    // Client id 0 means nobody, even with sub-connections listed.
    ctrl.client_id = c(0);
    assert!(!ctrl.has_control(c(7)));
}

#[test]
fn sub_connections_are_added_once() {
    let mut ids = vec![ConnectionId { id: 1 }];
    assert!(add_sub_connection(&mut ids, ConnectionId { id: 7 }));
    assert!(!add_sub_connection(&mut ids, ConnectionId { id: 7 }));
    assert_eq!(ids, vec![ConnectionId { id: 1 }, ConnectionId { id: 7 }]);
}

#[test]
fn control_defaults() {
    let r = ControlResponse::default();
    assert_eq!(r.sequence, 0);
    assert_eq!(r.kind, ControlResponseKind::Unset);
    assert_eq!(NotificationLevel::default(), NotificationLevel::Info);
}

#[test]
fn notification_sequence_numbers_increase() {
    let mut seq = NotificationSequence::new();
    let a = ServerNotification::info(&mut seq, "hello".to_string());
    let b = ServerNotification::warning(&mut seq, "careful".to_string()).with_context("Jog".to_string());
    let c = ServerNotification::error(&mut seq, "no".to_string());
    let d = ServerNotification::success(&mut seq, "yes".to_string());
    assert_eq!((a.sequence, b.sequence, c.sequence, d.sequence), (1, 2, 3, 4));
    assert_eq!(a.level, NotificationLevel::Info);
    assert_eq!(b.level, NotificationLevel::Warning);
    assert_eq!(b.context.as_deref(), Some("Jog"));
    assert_eq!(c.level, NotificationLevel::Error);
    assert_eq!(d.level, NotificationLevel::Success);
    assert_eq!(d.message, "yes");
    assert!(a.context.is_none());
    assert_eq!(ServerNotification::default().sequence, 0);

    let mut last = NotificationSequence { next: u64::MAX };
    assert_eq!(next_notification_sequence(&mut last), u64::MAX);
    assert_eq!(last.next, 0);
}

#[test]
fn number_text() {
    assert_eq!(decimal_string(0), "0");
    assert_eq!(decimal_string(1234567890), "1234567890");
    assert_eq!(decimal_string(u64::MAX), u64::MAX.to_string());
    assert_eq!(hex_string(0), "0x0");
    assert_eq!(hex_string(0xbeef), "0xbeef");
    assert_eq!(hex_string(u64::MAX), format!("{:#x}", u64::MAX));
}

#[test]
fn sync_error_messages() {
    assert_eq!(SyncError::NotConnected.message(), "Not connected to server");
    assert_eq!(
        SyncError::DeserializationFailed { component_name: "Pos".into(), error: "eof".into() }.message(),
        "Failed to deserialize component 'Pos': eof"
    );
    assert_eq!(
        SyncError::TypeNotRegistered { component_name: "Pos".into() }.message(),
        "Component type 'Pos' is not registered in the ClientRegistry. Did you forget to call registry.register::<Pos>()?"
    );
    assert_eq!(
        SyncError::SchemaHashMismatch { component_name: "Pos".into(), expected: 0x1f, actual: 0 }.message(),
        "Schema hash mismatch for component 'Pos': expected 0x1f, got 0x0. This usually means the client and server have different versions of the type definition."
    );
    assert_eq!(SyncError::WebSocketError { message: "down".into() }.message(), "WebSocket error: down");
    assert_eq!(
        SyncError::SerializationFailed { component_name: "Pos".into(), error: "bad".into() }.message(),
        "Failed to serialize component 'Pos': bad"
    );
}

#[test]
fn a_fresh_counter_numbers_notifications_one_two_three() {
    let mut seq = NotificationSequence::new();
    for k in 0..100u64 {
        let n = ServerNotification::info(&mut seq, format!("n{}", k));
        assert_eq!(n.sequence, k + 1);
    }
}
