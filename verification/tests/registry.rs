use kingshare::message::{WebSocketConnection, WebSocketMessage};
use kingshare::registry::{InMemoryWebSocketService, InboundOutcome};

fn conn(id: &str, user: Option<u128>) -> WebSocketConnection {
    WebSocketConnection::new(id.to_string(), user, 1000)
}

#[test]
fn register_and_lookup() {
    let mut reg = InMemoryWebSocketService::new();
    reg.add_connection(conn("c1", Some(7))).unwrap();
    let found = reg.get_connection("c1").unwrap();
    assert_eq!(found.connection_id, "c1");
    assert_eq!(found.user_id, Some(7));
    assert!(reg.get_connection("c2").is_none());
}

#[test]
fn duplicate_identifier_is_rejected_unchanged() {
    let mut reg = InMemoryWebSocketService::new();
    reg.add_connection(conn("c1", Some(7))).unwrap();
    assert!(reg.add_connection(conn("c1", Some(8))).is_err());
    let stats = reg.get_connection_stats();
    assert_eq!(stats.total_connections, 1);
    assert_eq!(stats.unique_users, 1);
}

#[test]
fn deregister_unknown_is_a_no_op() {
    let mut reg = InMemoryWebSocketService::new();
    reg.add_connection(conn("c1", Some(7))).unwrap();
    // Removing an unknown identifier succeeds and changes nothing.
    assert!(reg.remove_connection("ghost").is_ok());
    assert_eq!(reg.deregister("ghost"), None);
    let stats = reg.get_connection_stats();
    assert_eq!(stats.total_connections, 1);
}

#[test]
fn last_connection_emits_exactly_one_offline() {
    let mut reg = InMemoryWebSocketService::new();
    reg.add_connection(conn("c1", Some(7))).unwrap();
    reg.add_connection(conn("c2", Some(7))).unwrap();
    reg.add_connection(conn("watcher", None)).unwrap();

    // A non-last connection emits no presence event.
    assert_eq!(reg.deregister("c1"), None);
    assert!(reg.is_user_online(7));
    let queued = reg.drain_outbound("watcher").unwrap();
    assert!(queued.is_empty());

    // The last connection emits exactly one UserOffline.
    assert_eq!(reg.deregister("c2"), Some(7));
    assert!(!reg.is_user_online(7));
}

#[test]
fn remove_connection_broadcasts_offline_once() {
    let mut reg = InMemoryWebSocketService::new();
    reg.add_connection(conn("c1", Some(7))).unwrap();
    reg.add_connection(conn("watcher", None)).unwrap();
    reg.remove_connection("c1").unwrap();
    let queued = reg.drain_outbound("watcher").unwrap();
    assert_eq!(queued.len(), 1);
    match &queued[0] {
        WebSocketMessage::UserOffline { user_id, .. } => assert_eq!(*user_id, 7),
        other => panic!("expected UserOffline, got {:?}", other),
    }
}

#[test]
fn two_connections_one_user() {
    // Register c1, c2 for u1; deregister c1: still online with {c2};
    // deregister c2: offline, with exactly one UserOffline broadcast.
    let mut reg = InMemoryWebSocketService::new();
    reg.add_connection(conn("c1", Some(1))).unwrap();
    reg.add_connection(conn("c2", Some(1))).unwrap();
    reg.add_connection(conn("watcher", None)).unwrap();

    reg.remove_connection("c1").unwrap();
    assert!(reg.is_user_online(1));
    let remaining = reg.get_user_connections(1);
    assert_eq!(remaining.len(), 1);
    assert_eq!(remaining[0].connection_id, "c2");
    assert!(reg.drain_outbound("watcher").unwrap().is_empty());

    reg.remove_connection("c2").unwrap();
    assert!(!reg.is_user_online(1));
    let events = reg.drain_outbound("watcher").unwrap();
    assert_eq!(events.len(), 1);
    assert!(matches!(events[0], WebSocketMessage::UserOffline { user_id: 1, .. }));
}

#[test]
fn send_to_offline_user_enqueues_nothing_and_succeeds() {
    let mut reg = InMemoryWebSocketService::new();
    reg.add_connection(conn("c1", Some(1))).unwrap();
    // User 42 is offline: the call succeeds and no queue grows.
    assert!(reg.send_to_user(42, WebSocketMessage::Ping).is_ok());
    assert!(reg.drain_outbound("c1").unwrap().is_empty());
}

#[test]
fn send_to_user_reaches_exactly_that_users_connections() {
    let mut reg = InMemoryWebSocketService::new();
    reg.add_connection(conn("c1", Some(1))).unwrap();
    reg.add_connection(conn("c2", Some(2))).unwrap();
    reg.send_to_user(1, WebSocketMessage::Ping).unwrap();
    let got = reg.drain_outbound("c1").unwrap();
    assert_eq!(got, vec![WebSocketMessage::Ping]);
    assert!(reg.drain_outbound("c2").unwrap().is_empty());
}

#[test]
fn queue_is_first_in_first_out() {
    let mut reg = InMemoryWebSocketService::new();
    reg.add_connection(conn("c1", Some(1))).unwrap();
    let m1 = WebSocketMessage::SystemNotification {
        message: "one".to_string(),
        level: kingshare::message::NotificationLevel::Info,
    };
    let m2 = WebSocketMessage::Ping;
    let m3 = WebSocketMessage::Error { code: "E".to_string(), message: "boom".to_string() };
    reg.send_to_connection("c1", m1.clone()).unwrap();
    reg.send_to_connection("c1", m2.clone()).unwrap();
    reg.send_to_connection("c1", m3.clone()).unwrap();
    let got = reg.drain_outbound("c1").unwrap();
    assert_eq!(got, vec![m1, m2, m3]);
}

#[test]
fn send_to_absent_connection_is_not_found() {
    let mut reg = InMemoryWebSocketService::new();
    assert!(reg.send_to_connection("nope", WebSocketMessage::Ping).is_err());
}

#[test]
fn broadcast_reaches_everyone() {
    let mut reg = InMemoryWebSocketService::new();
    reg.add_connection(conn("c1", Some(1))).unwrap();
    reg.add_connection(conn("c2", None)).unwrap();
    reg.broadcast(WebSocketMessage::Pong).unwrap();
    assert_eq!(reg.drain_outbound("c1").unwrap(), vec![WebSocketMessage::Pong]);
    assert_eq!(reg.drain_outbound("c2").unwrap(), vec![WebSocketMessage::Pong]);
}

#[test]
fn broadcast_to_users_delivers_per_occurrence() {
    let mut reg = InMemoryWebSocketService::new();
    reg.add_connection(conn("c1", Some(1))).unwrap();
    reg.add_connection(conn("c2", Some(2))).unwrap();
    reg.broadcast_to_users(vec![1, 2, 1], WebSocketMessage::Ping).unwrap();
    assert_eq!(reg.drain_outbound("c1").unwrap().len(), 2);
    assert_eq!(reg.drain_outbound("c2").unwrap().len(), 1);
}

#[test]
fn cleanup_with_zero_timeout_removes_everything() {
    let mut reg = InMemoryWebSocketService::new();
    reg.add_connection(conn("c1", Some(1))).unwrap();
    reg.add_connection(conn("c2", Some(2))).unwrap();
    reg.add_connection(conn("c3", None)).unwrap();
    let removed = reg.cleanup_at(5000, 0);
    assert_eq!(removed, 3);
    let stats = reg.get_connection_stats();
    assert_eq!(stats.total_connections, 0);
    assert_eq!(stats.unique_users, 0);
}

#[test]
fn cleanup_keeps_fresh_connections() {
    let mut reg = InMemoryWebSocketService::new();
    reg.add_connection(WebSocketConnection::new("old".to_string(), Some(1), 1000)).unwrap();
    reg.add_connection(WebSocketConnection::new("new".to_string(), Some(2), 1990)).unwrap();
    // At t=2000 with a 60-second timeout, only the stale connection goes.
    let removed = reg.cleanup_at(2000, 60);
    assert_eq!(removed, 1);
    assert!(reg.get_connection("new").is_some());
    assert!(reg.get_connection("old").is_none());
    assert!(!reg.is_user_online(1));
    assert!(reg.is_user_online(2));
    // The survivor heard that user 1 went offline.
    let events = reg.drain_outbound("new").unwrap();
    assert_eq!(events.len(), 1);
    assert!(matches!(events[0], WebSocketMessage::UserOffline { user_id: 1, .. }));
}

#[test]
fn cleanup_keeps_a_connection_exactly_at_the_timeout() {
    let mut reg = InMemoryWebSocketService::new();
    reg.add_connection(WebSocketConnection::new("edge".to_string(), Some(1), 1000)).unwrap();
    // Sixty seconds of silence with a sixty-second timeout: not yet past
    // it, so the sweep keeps the connection.
    let removed = reg.cleanup_at(1060, 60);
    assert_eq!(removed, 0);
    assert!(reg.get_connection("edge").is_some());
    // One more second and the sweep takes it.
    let removed = reg.cleanup_at(1061, 60);
    assert_eq!(removed, 1);
    assert!(reg.get_connection("edge").is_none());
}

#[test]
fn user_send_scenario() {
    // Register c1 for u1, send_to_user(u1, Ping): c1's writer sees exactly Ping.
    let mut reg = InMemoryWebSocketService::new();
    reg.add_connection(conn("c1", Some(1))).unwrap();
    reg.send_to_user(1, WebSocketMessage::Ping).unwrap();
    let got = reg.drain_outbound("c1").unwrap();
    assert_eq!(got, vec![WebSocketMessage::Ping]);
}

#[test]
fn accept_connection_announces_first_arrival_only() {
    let mut reg = InMemoryWebSocketService::new();
    reg.accept_connection("c1".to_string(), Some(1), 1000).unwrap();
    // The first connection of a user broadcasts UserOnline (to itself too).
    let events = reg.drain_outbound("c1").unwrap();
    assert_eq!(events.len(), 1);
    assert!(matches!(events[0], WebSocketMessage::UserOnline { user_id: 1, .. }));
    // A second connection of the same user stays quiet.
    reg.accept_connection("c2".to_string(), Some(1), 1001).unwrap();
    assert!(reg.drain_outbound("c1").unwrap().is_empty());
    assert!(reg.drain_outbound("c2").unwrap().is_empty());
}

#[test]
fn interleaved_churn_keeps_registry_consistent() {
    // A deterministic churn of registrations, deregistrations, and
    // broadcasts; the user index must match the live connections at every
    // step.
    let mut reg = InMemoryWebSocketService::new();
    let mut seed: u64 = 0x2545F4914F6CDD1D;
    for step in 0..100u64 {
        seed = seed.wrapping_mul(6364136223846793005).wrapping_add(1442695040888963407);
        let user = (seed >> 33) % 5;
        let name = format!("conn-{}", step % 17);
        match seed % 3 {
            0 => {
                let _ = reg.add_connection(WebSocketConnection::new(
                    name,
                    Some(user as u128),
                    step as i64,
                ));
            },
            1 => {
                let _ = reg.remove_connection(&name);
            },
            _ => {
                let _ = reg.broadcast(WebSocketMessage::Pong);
            },
        }
        // The stats must agree with the per-user listing.
        let stats = reg.get_connection_stats();
        let mut listed = 0;
        for (u, count) in &stats.connections_by_user {
            assert_eq!(reg.get_user_connections(*u).len(), *count);
            assert!(reg.is_user_online(*u));
            listed += count;
        }
        assert!(listed <= stats.total_connections);
    }
}

#[test]
fn online_users_lists_each_user_once() {
    let mut reg = InMemoryWebSocketService::new();
    reg.add_connection(conn("c1", Some(1))).unwrap();
    reg.add_connection(conn("c2", Some(1))).unwrap();
    reg.add_connection(conn("c3", Some(2))).unwrap();
    let users = reg.get_online_users();
    assert_eq!(users, vec![1, 2]);
}

#[test]
fn inbound_ping_accepts_json_spelling_variants() {
    let mut reg = InMemoryWebSocketService::new();
    reg.add_connection(conn("c1", Some(1))).unwrap();
    let outcome = reg
        .handle_incoming_at("c1", " { \"type\" : \"Ping\" } ", 2000)
        .unwrap();
    assert!(matches!(outcome, InboundOutcome::Handled));
    assert_eq!(reg.drain_outbound("c1").unwrap(), vec![WebSocketMessage::Pong]);
}

#[test]
fn inbound_ping_is_answered_and_touches_activity() {
    let mut reg = InMemoryWebSocketService::new();
    reg.add_connection(conn("c1", Some(1))).unwrap();
    let outcome = reg
        .handle_incoming_at("c1", "{\"type\":\"Ping\"}", 2000)
        .unwrap();
    assert!(matches!(outcome, InboundOutcome::Handled));
    assert_eq!(reg.drain_outbound("c1").unwrap(), vec![WebSocketMessage::Pong]);
    assert_eq!(reg.get_connection("c1").unwrap().last_activity, 2000);
}

#[test]
fn malformed_frame_keeps_connection_active_and_stale() {
    let mut reg = InMemoryWebSocketService::new();
    reg.add_connection(conn("c1", Some(1))).unwrap();
    let result = reg.handle_incoming_at("c1", "not json at all", 2000);
    assert!(result.is_err());
    // The connection is still there and its activity stamp did not advance.
    let c = reg.get_connection("c1").unwrap();
    assert_eq!(c.last_activity, 1000);
    assert!(reg.drain_outbound("c1").unwrap().is_empty());
}

#[test]
fn inbound_authentication_round_trip() {
    let mut reg = InMemoryWebSocketService::new();
    reg.add_connection(conn("c1", None)).unwrap();
    let frame = "{\"type\":\"Authenticate\",\"data\":{\"token\":\"tok-123\"}}";
    let outcome = reg.handle_incoming_at("c1", frame, 2000).unwrap();
    match outcome {
        InboundOutcome::AuthRequest { token } => assert_eq!(token, "tok-123"),
        other => panic!("expected AuthRequest, got {:?}", other),
    }
    reg.complete_authentication("c1", true).unwrap();
    let events = reg.drain_outbound("c1").unwrap();
    assert_eq!(events.len(), 1);
    assert!(matches!(
        &events[0],
        WebSocketMessage::AuthenticationResult { success: true, .. }
    ));
}
