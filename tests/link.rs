use remotesync::connect::{
    connect_url, AttemptOutcome, ConnectAction, ConnectRetry, CONNECT_BACKOFF_MS, CONNECT_MAX_ATTEMPTS,
    CONNECT_TIMEOUT_SECS, TIMEOUT_CAUSE, WS_PORT,
};
use remotesync::error::SyncError;
use remotesync::message::{decode, encode, Message};
use remotesync::peers::{DiscoveryEvent, PeerTable};
use remotesync::session::{enqueue_result, AppEvent, Role, SyncState};

#[test]
fn second_start_host_is_already_active() {
    let mut s = SyncState::new();
    assert_eq!(s.start_host(), Ok(()));
    assert_eq!(s.start_host(), Err(SyncError::AlreadyActive));
    assert!(s.is_hosting());
    s.host_accepted();
    assert!(s.send_clipboard("x".to_string()).is_ok());
}

#[test]
fn failed_bind_does_not_leave_hosting_on() {
    let mut s = SyncState::new();
    s.start_host().unwrap();
    let e = s.host_setup_failed(SyncError::BindFailure { cause: "in use".to_string() });
    assert_eq!(e, SyncError::BindFailure { cause: "in use".to_string() });
    assert!(!s.is_hosting());
    assert_eq!(s.start_host(), Ok(()));
}

#[test]
fn second_start_browse_starts_no_new_scan() {
    let mut s = SyncState::new();
    assert!(s.start_browse());
    assert!(!s.start_browse());
    assert!(s.is_browsing());
    s.stop_browse();
    assert!(s.start_browse());
}

#[test]
fn sends_without_link_are_not_connected() {
    let s = SyncState::new();
    assert_eq!(s.send_clipboard("hi".to_string()), Err(SyncError::NotConnected));
    assert_eq!(s.send_bring_to_front(), Err(SyncError::NotConnected));
    assert_eq!(s.send_file_bytes("f".to_string(), b"abc"), Err(SyncError::NotConnected));
    assert_eq!(SyncError::NotConnected.message(), "Not connected");
}

#[test]
fn queue_refusal_is_send_failed() {
    assert_eq!(enqueue_result(true), Ok(()));
    assert_eq!(enqueue_result(false), Err(SyncError::SendFailed));
}

#[test]
fn routes_to_the_active_link() {
    let mut s = SyncState::new();
    let ev = s.client_connected("10.0.0.1".to_string());
    assert_eq!(s.outbound(), Some(Role::Client));
    assert_eq!(ev, AppEvent::Connected { name: "10.0.0.1".to_string() });
    assert_eq!(s.peer_name(), Some("10.0.0.1".to_string()));
    let (role, rec) = s.send_bring_to_front().unwrap();
    assert_eq!(role, Role::Client);
    assert_eq!(rec, r#"{"type":"BringToFront"}"#);
    let (_, rec) = s.send_file_bytes("f".to_string(), b"hi").unwrap();
    assert_eq!(decode(&rec), Ok(Message::File { name: "f".to_string(), data: "aGk=".to_string() }));
}

#[test]
fn host_learns_peer_name_from_hello() {
    let mut s = SyncState::new();
    s.start_host().unwrap();
    s.host_accepted();
    assert_eq!(s.peer_name(), None);
    let ev = s.receive(Role::Host, r#"{"type":"Hello","name":"MacB"}"#);
    assert_eq!(ev, Some(AppEvent::Connected { name: "MacB".to_string() }));
    assert_eq!(s.peer_name(), Some("MacB".to_string()));
    assert_eq!(s.receive(Role::Host, "garbage"), None);
    assert_eq!(s.receive(Role::Host, r#"{"type":"BringToFront"}"#), Some(AppEvent::BringToFront));
    assert_eq!(
        s.receive(Role::Host, r#"{"type":"File","name":"a","data":"aGk="}"#),
        Some(AppEvent::RemoteFile { name: "a".to_string(), data: "aGk=".to_string() })
    );
    assert_eq!(s.link_closed(Role::Host), AppEvent::Disconnected);
    assert!(!s.is_hosting());
    assert_eq!(s.link(), None);
    assert_eq!(s.peer_name(), None);
}

#[test]
fn client_ignores_hello() {
    let mut s = SyncState::new();
    s.client_connected("h".to_string());
    assert_eq!(s.receive(Role::Client, r#"{"type":"Hello","name":"X"}"#), None);
    assert_eq!(s.peer_name(), Some("h".to_string()));
}

#[test]
fn stale_link_close_keeps_new_link() {
    let mut s = SyncState::new();
    s.host_accepted();
    s.client_connected("h".to_string());
    s.link_closed(Role::Host);
    assert_eq!(s.link(), Some(Role::Client));
}

#[test]
fn stop_host_drops_only_the_host_handle() {
    let mut s = SyncState::new();
    s.start_host().unwrap();
    s.host_accepted();
    s.receive(Role::Host, r#"{"type":"Hello","name":"MacB"}"#);
    s.stop_host();
    assert!(!s.is_hosting());
    assert_eq!(s.outbound(), None);
    assert_eq!(s.link(), Some(Role::Host));
    assert_eq!(s.peer_name(), Some("MacB".to_string()));
    assert_eq!(s.send_clipboard("x".to_string()), Err(SyncError::NotConnected));
    assert_eq!(s.link_closed(Role::Host), AppEvent::Disconnected);
    assert_eq!(s.peer_name(), None);
    assert_eq!(s.link(), None);
}

#[test]
fn hello_after_stop_host_still_names_the_peer() {
    let mut s = SyncState::new();
    s.start_host().unwrap();
    s.host_accepted();
    s.stop_host();
    assert_eq!(
        s.receive(Role::Host, r#"{"type":"Hello","name":"MacB"}"#),
        Some(AppEvent::Connected { name: "MacB".to_string() })
    );
    assert_eq!(s.peer_name(), Some("MacB".to_string()));
}

#[test]
fn stop_host_keeps_a_client_handle() {
    let mut s = SyncState::new();
    s.client_connected("h".to_string());
    s.stop_host();
    assert_eq!(s.outbound(), Some(Role::Client));
    assert!(s.send_bring_to_front().is_ok());
}

#[test]
fn unreachable_peer_gives_up_after_all_attempts() {
    let mut r = ConnectRetry::new();
    assert_eq!(r.attempt_timeout_secs(), CONNECT_TIMEOUT_SECS);
    let mut waited_ms: u64 = 0;
    let mut attempts = 0;
    loop {
        attempts += 1;
        waited_ms += CONNECT_TIMEOUT_SECS * 1000;
        match r.on_outcome(AttemptOutcome::Failed { cause: "Connection refused".to_string() }) {
            ConnectAction::RetryAfter { delay_ms } => {
                assert_eq!(delay_ms, CONNECT_BACKOFF_MS);
                waited_ms += delay_ms;
            }
            ConnectAction::GiveUp { error } => {
                assert_eq!(
                    error,
                    SyncError::ConnectFailure { attempts: 3, last_error: "Connection refused".to_string() }
                );
                assert_eq!(error.message(), "Failed after 3 attempts. Connection refused");
                break;
            }
            ConnectAction::Established => panic!("never connected"),
        }
    }
    assert_eq!(attempts, CONNECT_MAX_ATTEMPTS);
    assert_eq!(r.attempts(), 3);
    assert!(waited_ms <= CONNECT_MAX_ATTEMPTS as u64 * (CONNECT_TIMEOUT_SECS * 1000 + CONNECT_BACKOFF_MS));
}

#[test]
fn timeouts_report_the_timeout_cause() {
    let mut r = ConnectRetry::new();
    r.on_outcome(AttemptOutcome::Failed { cause: "refused".to_string() });
    r.on_outcome(AttemptOutcome::TimedOut);
    match r.on_outcome(AttemptOutcome::TimedOut) {
        ConnectAction::GiveUp { error: SyncError::ConnectFailure { attempts, last_error } } => {
            assert_eq!(attempts, 3);
            assert_eq!(last_error, TIMEOUT_CAUSE);
        }
        other => panic!("unexpected {:?}", other),
    }
}

#[test]
fn second_attempt_can_connect() {
    let mut r = ConnectRetry::new();
    assert_eq!(r.on_outcome(AttemptOutcome::TimedOut), ConnectAction::RetryAfter { delay_ms: 500 });
    assert_eq!(r.on_outcome(AttemptOutcome::Connected), ConnectAction::Established);
}

#[test]
fn url_names_host_and_port() {
    assert_eq!(connect_url("192.168.1.5", WS_PORT), "ws://192.168.1.5:18765");
    assert_eq!(connect_url("h", 0), "ws://h:0");
}

/// Two sessions wired back to back, frames carried by hand.
#[test]
fn end_to_end_host_browse_connect_send_disconnect() {
    let mut a = SyncState::new();
    let mut b = SyncState::new();
    assert_eq!(a.start_host(), Ok(()));
    let ad = remotesync::advertise::advertisement("MacA", Some("192.168.1.10".to_string()));

    assert!(b.start_browse());
    let mut table = PeerTable::new();
    let peers = table
        .handle_event(DiscoveryEvent::Resolved {
            fullname: format!("{}.{}", ad.instance_name, "_remotesync._tcp.local."),
            host: ad.address.clone(),
            port: ad.port,
        })
        .unwrap();
    assert_eq!(peers.len(), 1);
    assert_eq!(peers[0].name, "MacA");
    assert_eq!(peers[0].host, "192.168.1.10");
    assert_eq!(peers[0].port, WS_PORT);

    a.host_accepted();
    let hello = encode(&Message::Hello { name: "MacB".to_string() });
    let b_event = b.client_connected(peers[0].host.clone());
    assert_eq!(b_event, AppEvent::Connected { name: "192.168.1.10".to_string() });
    assert_eq!(a.receive(Role::Host, &hello), Some(AppEvent::Connected { name: "MacB".to_string() }));

    let (role, rec) = b.send_clipboard("hello".to_string()).unwrap();
    assert_eq!(role, Role::Client);
    assert_eq!(a.receive(Role::Host, &rec), Some(AppEvent::RemoteClipboard { text: "hello".to_string() }));

    assert_eq!(a.disconnect(), AppEvent::Disconnected);
    assert_eq!(b.link_closed(Role::Client), AppEvent::Disconnected);
    assert_eq!(a.send_clipboard("x".to_string()), Err(SyncError::NotConnected));
    assert_eq!(b.send_clipboard("x".to_string()), Err(SyncError::NotConnected));
    assert_eq!(encode(&Message::BringToFront), r#"{"type":"BringToFront"}"#);
}

#[test]
fn hello_after_disconnect_names_no_one() {
    let mut s = SyncState::new();
    s.host_accepted();
    s.disconnect();
    assert_eq!(s.receive(Role::Host, r#"{"type":"Hello","name":"Late"}"#), None);
    assert_eq!(s.peer_name(), None);
    assert_eq!(
        s.receive(Role::Host, r#"{"type":"Clipboard","text":"still shown"}"#),
        Some(AppEvent::RemoteClipboard { text: "still shown".to_string() })
    );
}

#[test]
fn error_messages_carry_causes() {
    assert_eq!(SyncError::BindFailure { cause: "Address in use".to_string() }.message(), "Address in use");
    assert_eq!(SyncError::AlreadyActive.message(), "Already hosting");
    assert_eq!(SyncError::SendFailed.message(), "Send failed");
}
