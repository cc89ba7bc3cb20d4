use autopush_core::client::WebPushClient;
use autopush_core::db_error::{BigTableError, DbError};
use autopush_core::endpoint_error;
use autopush_core::notification::Notification;
use autopush_core::pool::{dsn_uses_emulator, pool_plan, BigTableDbSettings, BigtableClientManager};
use autopush_core::protocol::{AckEntry, SMError, ServerMessage, ServerNotification};
use autopush_core::router::{RegisterOutcome, Router};
use autopush_core::row::{Cell, Row};
use autopush_core::storage::StorageModel;

fn notif(ch: &str, v: &str, ttl: u64, topic: Option<&str>, ts: u64, sk: Option<u64>) -> Notification {
    Notification {
        channel_id: ch.to_string(),
        version: v.to_string(),
        ttl,
        topic: topic.map(|t| t.to_string()),
        timestamp: ts,
        sortkey_timestamp: sk,
        data: Some("x".to_string()),
    }
}

fn settings() -> BigTableDbSettings {
    BigTableDbSettings {
        table_name: "message".to_string(),
        database_pool_max_size: Some(20),
        database_pool_connection_timeout_ms: 5000,
        database_pool_connection_ttl_ms: 60000,
        database_pool_max_idle_ms: 30000,
    }
}

#[test]
fn direct_delivery_queues_unacked() {
    // A direct notification is emitted once and queued as unacked.
    let mut c = WebPushClient::new(1, 10, 100);
    let mut sd = StorageModel::new();
    let n = notif("c1", "v1", 60, None, 1000, None);
    let r = c
        .on_server_notif(&mut sd, ServerNotification::Notification(n), 1000)
        .unwrap();
    assert_eq!(r.len(), 1);
    match &r[0] {
        ServerMessage::Notification(m) => {
            assert_eq!(m.channel_id, "c1");
            assert_eq!(m.version, "v1");
            assert_eq!(m.ttl, 60);
        }
    }
    assert_eq!(c.ack_state.unacked_direct_notifs.len(), 1);
}

#[test]
fn ttl_zero_never_queued() {
    let mut c = WebPushClient::new(1, 10, 100);
    let sm = c.notif(notif("c1", "v0", 0, None, 1000, None));
    match sm {
        ServerMessage::Notification(m) => assert_eq!(m.ttl, 0),
    }
    assert!(c.ack_state.unacked_direct_notifs.is_empty());
}

#[test]
fn ack_clears_direct_without_storage_delete() {
    let mut c = WebPushClient::new(1, 10, 100);
    let mut sd = StorageModel::new();
    sd.store_message(notif("other", "ov", 60, Some("t"), 1000, None));
    let rows_before = sd.topic_rows.len();
    c.notif(notif("c1", "v1", 60, None, 1000, None));
    let ups = vec![AckEntry { channel_id: "c1".to_string(), version: "v1".to_string() }];
    let r = c.ack(&mut sd, &ups, 1000).unwrap();
    assert!(r.is_empty());
    assert!(c.ack_state.unacked_direct_notifs.is_empty());
    assert_eq!(sd.topic_rows.len(), rows_before);
}

#[test]
fn disconnect_signal_is_ghost() {
    let mut c = WebPushClient::new(1, 10, 100);
    let mut sd = StorageModel::new();
    let r = c.on_server_notif(&mut sd, ServerNotification::Disconnect, 0);
    assert!(matches!(r, Err(SMError::GhostDisconnect)));
}

#[test]
fn sweep_of_empty_storage_resets_flags() {
    let mut c = WebPushClient::new(1, 10, 100);
    c.sent_from_storage = 5;
    let mut sd = StorageModel::new();
    let r = c.check_storage(&mut sd, 1000).unwrap();
    assert!(r.is_empty());
    assert!(!c.flags.check_storage);
    assert_eq!(c.sent_from_storage, 0);
}

#[test]
fn topic_overflow_emits_ten_and_keeps_flag() {
    let mut c = WebPushClient::new(1, 10, 100);
    let mut sd = StorageModel::new();
    for i in 0..11u64 {
        sd.store_message(notif(
            &format!("ch{i}"),
            &format!("v{i}"),
            600,
            Some("t"),
            1000,
            None,
        ));
    }
    let r = c.check_storage(&mut sd, 1000).unwrap();
    assert_eq!(r.len(), 10);
    assert!(c.flags.include_topic);
    assert!(c.flags.check_storage);
    assert_eq!(c.sent_from_storage, 10);
    assert_eq!(c.ack_state.unacked_stored_notifs.len(), 10);
}

#[test]
fn sweep_round_trip_clears_storage_and_queues() {
    let mut c = WebPushClient::new(1, 10, 100);
    let mut sd = StorageModel::new();
    for i in 0..3u64 {
        sd.store_message(notif(&format!("ch{i}"), &format!("v{i}"), 600, None, 1000, Some(5 + i)));
    }
    let r = c.check_storage(&mut sd, 1000).unwrap();
    assert_eq!(r.len(), 3);
    let ups: Vec<AckEntry> = (0..3u64)
        .map(|i| AckEntry { channel_id: format!("ch{i}"), version: format!("v{i}") })
        .collect();
    let follow = c.ack(&mut sd, &ups, 1000).unwrap();
    assert!(follow.is_empty());
    assert!(c.ack_state.unacked_stored_notifs.is_empty());
    assert!(sd.timestamp_rows.is_empty());
    assert!(sd.topic_rows.is_empty());
}

#[test]
fn ack_twice_same_as_once() {
    let mut c = WebPushClient::new(1, 10, 100);
    let mut sd = StorageModel::new();
    c.notif(notif("c1", "v1", 60, None, 1000, None));
    let ups = vec![AckEntry { channel_id: "c1".to_string(), version: "v1".to_string() }];
    c.ack(&mut sd, &ups, 1000).unwrap();
    let after_once = c.ack_state.unacked_direct_notifs.len();
    c.ack(&mut sd, &ups, 1000).unwrap();
    assert_eq!(c.ack_state.unacked_direct_notifs.len(), after_once);
    assert_eq!(after_once, 0);
}

#[test]
fn quota_crossing_drops_queue_and_terminates() {
    let mut c = WebPushClient::new(1, 10, 2);
    let mut sd = StorageModel::new();
    for i in 0..5u64 {
        sd.store_message(notif(&format!("ch{i}"), &format!("v{i}"), 600, None, 1000, Some(5 + i)));
    }
    let r = c.check_storage(&mut sd, 1000);
    assert!(matches!(r, Err(SMError::MessageLimitExceeded)));
    assert!(sd.timestamp_rows.is_empty());
    assert!(sd.topic_rows.is_empty());
    assert!(c.ack_state.unacked_stored_notifs.is_empty());
}

#[test]
fn expired_without_sortkey_deleted_individually() {
    let mut c = WebPushClient::new(1, 10, 100);
    let mut sd = StorageModel::new();
    // A topic row whose ttl has long passed: expired, no sort key.
    sd.store_message(notif("cx", "vx", 1, Some("t"), 10, None));
    let r = c.check_storage(&mut sd, 5000).unwrap();
    assert!(r.is_empty());
    assert!(sd.topic_rows.is_empty());
    assert!(c.flags.check_storage);
}

#[test]
fn expired_with_sortkey_left_to_commit() {
    let mut c = WebPushClient::new(1, 10, 100);
    let mut sd = StorageModel::new();
    sd.store_message(notif("cx", "vx", 1, None, 10, Some(42)));
    let r = c.check_storage(&mut sd, 5000).unwrap();
    assert!(r.is_empty());
    // No individual delete: the row stays until the high-water commit.
    assert_eq!(sd.timestamp_rows.len(), 1);
    assert_eq!(c.ack_state.unacked_stored_highest, Some(42));
    c.flags.increment_storage = true;
    c.increment_storage(&mut sd).unwrap();
    assert_eq!(sd.high_water, Some(42));
    assert!(!c.flags.increment_storage);
}

#[test]
fn increment_storage_without_mark_is_internal_error() {
    let mut c = WebPushClient::new(1, 10, 100);
    let mut sd = StorageModel::new();
    let r = c.increment_storage(&mut sd);
    assert!(matches!(r, Err(SMError::Internal(_))));
}

#[test]
fn high_water_mark_never_regresses() {
    let mut sd = StorageModel::new();
    sd.increment_storage(50);
    assert_eq!(sd.high_water, Some(50));
    sd.increment_storage(20);
    assert_eq!(sd.high_water, Some(50));
    sd.increment_storage(70);
    assert_eq!(sd.high_water, Some(70));
}

#[test]
fn shutdown_flushes_direct_to_storage() {
    let mut c = WebPushClient::new(1, 10, 100);
    let mut sd = StorageModel::new();
    c.notif(notif("c1", "v1", 60, None, 1000, None));
    c.notif(notif("c2", "v2", 60, Some("t"), 1000, None));
    c.shutdown(&mut sd);
    assert!(c.ack_state.unacked_direct_notifs.is_empty());
    assert_eq!(sd.timestamp_rows.len(), 1);
    assert_eq!(sd.topic_rows.len(), 1);
}

#[test]
fn shutdown_signal_queues_notification() {
    let mut c = WebPushClient::new(1, 10, 100);
    c.on_server_notif_shutdown(ServerNotification::Notification(notif(
        "c1", "v1", 60, None, 1000, None,
    )));
    c.on_server_notif_shutdown(ServerNotification::CheckStorage);
    c.on_server_notif_shutdown(ServerNotification::Disconnect);
    assert_eq!(c.ack_state.unacked_direct_notifs.len(), 1);
}

#[test]
fn session_takeover_evicts_older() {
    let mut r = Router::new();
    assert_eq!(r.register(7, 100, 10), RegisterOutcome::Inserted);
    assert_eq!(r.deliver(7), Some(100));
    let out = r.register(7, 200, 20);
    assert_eq!(out, RegisterOutcome::Replaced { old_sender: 100 });
    assert_eq!(r.deliver(7), Some(200));
    // The superseded session's unregister is a no-op.
    assert!(!r.unregister(7, 10));
    assert_eq!(r.deliver(7), Some(200));
    assert!(r.unregister(7, 20));
    assert_eq!(r.deliver(7), None);
}

#[test]
fn stale_registration_loses_arbitration() {
    let mut r = Router::new();
    r.register(7, 200, 20);
    assert_eq!(r.register(7, 100, 10), RegisterOutcome::Outdated);
    assert_eq!(r.deliver(7), Some(200));
}

#[test]
fn notification_expiry_boundary() {
    let n = notif("c", "v", 60, None, 1000, None);
    assert!(!n.expired(1060));
    assert!(n.expired(1061));
}

#[test]
fn pool_plan_builds_connection_string() {
    let s = settings();
    let plan = pool_plan(&s, &Some("grpc://bigtable.example:1234".to_string())).unwrap();
    assert_eq!(plan.connection, "bigtable.example:1234");
    assert_eq!(plan.max_size, Some(20));
    assert_eq!(plan.create_timeout_ms, Some(5000));
}

#[test]
fn pool_plan_defaults_port() {
    let s = settings();
    let plan = pool_plan(&s, &Some("grpc://bigtable.example".to_string())).unwrap();
    assert_eq!(plan.connection, "bigtable.example:8086");
}

#[test]
fn pool_plan_rejects_missing_and_bad_dsn() {
    let s = settings();
    assert!(matches!(pool_plan(&s, &None), Err(DbError::ConnectionError(_))));
    assert!(matches!(
        pool_plan(&s, &Some("not a url".to_string())),
        Err(DbError::ConnectionError(_))
    ));
    assert!(matches!(
        pool_plan(&s, &Some("grpc://host:1234/table".to_string())),
        Err(DbError::ConnectionError(_))
    ));
}

#[test]
fn emulator_detection() {
    assert!(dsn_uses_emulator(&Some("grpc://localhost:8086".to_string()), false));
    assert!(!dsn_uses_emulator(&Some("grpc://remote:8086".to_string()), false));
    assert!(dsn_uses_emulator(&None, true));
    assert!(!dsn_uses_emulator(&None, false));
}

#[test]
fn manager_recycles_old_idle_and_unhealthy() {
    let s = settings();
    let m = BigtableClientManager::new(&s, None, "h:1".to_string()).unwrap();
    assert!(m.recycle(1000, None, Some(true)).is_ok());
    assert!(m.recycle(60001, None, Some(true)).is_err());
    assert!(m.recycle(1000, Some(30001), Some(true)).is_err());
    assert!(m.recycle(1000, Some(1000), Some(true)).is_ok());
    assert!(m.recycle(1000, None, Some(false)).is_err());
    assert!(m.recycle(1000, None, None).is_err());
}

#[test]
fn row_cells_round_trip() {
    let mut row = Row::new("rk".to_string());
    let c1 = Cell { qualifier: "q1".to_string(), value: vec![1, 2], timestamp_micros: 5 };
    let c2 = Cell { qualifier: "q2".to_string(), value: vec![3], timestamp_micros: 6 };
    assert!(row.add_cells("fam", vec![c1, c2]).is_none());
    let got = row.get_cells("fam").unwrap();
    assert_eq!(got.len(), 2);
    assert_eq!(got[0].qualifier, "q1");
    let top = row.get_cell("fam").unwrap();
    assert_eq!(top.qualifier, "q2");
    assert_eq!(top.value, vec![3]);
    assert!(row.get_cells("other").is_none());
    assert!(row.get_cell("other").is_none());
    let prior = row
        .add_cells("fam", vec![Cell { qualifier: "q3".to_string(), value: vec![], timestamp_micros: 7 }])
        .unwrap();
    assert_eq!(prior.len(), 2);
    assert_eq!(row.get_cells("fam").unwrap().len(), 1);
}

#[test]
fn endpoint_error_maps_to_common() {
    let e = endpoint_error::DbError::GetItem(rusoto_core::RusotoError::Validation(
        "bad".to_string(),
    ));
    assert!(matches!(endpoint_error::DbError::from(e), DbError::DdbGetItem(_)));
    let t = endpoint_error::DbError::TableStatusUnknown;
    assert!(matches!(
        endpoint_error::DbError::from(t),
        DbError::TableStatusUnknown
    ));
}

#[test]
fn db_error_classification() {
    let e = DbError::BTError(BigTableError::Recycle);
    assert!(!e.is_sentry_event());
    assert_eq!(e.metric_label(), Some("storage.bigtable.error.recycle"));
    assert!(e.reportable_source().is_some());
    let a = DbError::BTError(BigTableError::Admin {
        message: "creds".to_string(),
        detail: None,
    });
    assert!(a.is_sentry_event());
    assert!(DbError::Conditional.metric_label().is_none());
    assert!(DbError::Conditional.reportable_source().is_none());
}

#[test]
fn topic_store_overwrites_same_key() {
    let mut sd = StorageModel::new();
    sd.store_message(notif("c", "v1", 60, Some("t"), 1000, None));
    sd.store_message(notif("c", "v2", 60, Some("t"), 2000, None));
    assert_eq!(sd.topic_rows.len(), 1);
    assert_eq!(sd.topic_rows[0].version, "v2");
}

#[test]
fn timestamp_fetch_pages_after_mark() {
    let mut sd = StorageModel::new();
    for i in 0..4u64 {
        sd.store_message(notif(&format!("c{i}"), &format!("v{i}"), 600, None, 1000, Some(10 + i)));
    }
    let resp = sd.fetch_timestamp_messages(Some(11), 10);
    assert_eq!(resp.messages.len(), 2);
    assert_eq!(resp.messages[0].sortkey_timestamp, Some(12));
    assert_eq!(resp.timestamp, Some(13));
    let none = sd.fetch_timestamp_messages(Some(13), 10);
    assert!(none.messages.is_empty());
    assert_eq!(none.timestamp, None);
}
