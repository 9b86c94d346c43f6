//! The guarded state container: the scenario a foreign host walks
//! through, the outbound slot's lifetime, and the error paths.

use wumpus::boundary::{DecodeError, UserData};
use wumpus::engine::{Config, Engine, InterfaceType};

fn fresh() -> UserData<Engine> {
    let config = Config::from_json("{}");
    let engine = Engine::new(&config, InterfaceType::PC);
    UserData::new(engine)
}

#[test]
fn scenario_minimal_configuration() {
    // Create with a minimal configuration.
    let mut ud = fresh();
    assert!(!ud.is_shutdown_required());
    // The starting view is non-empty markup.
    ud.initial_html_inner();
    assert!(!ud.last_string().is_empty());
    // A well-formed quit action asks for shutdown.
    assert!(ud.execute_inner(b"\"Quit\"").is_ok());
    assert!(ud.is_shutdown_required());
    // A malformed payload takes the documented failure path.
    assert_eq!(
        ud.execute_inner(b"{\"Shoot\":[1,2"),
        Err(DecodeError::BadAction)
    );
    // The container drops here; no call touches it afterwards.
}

#[test]
fn create_then_initial_html_is_nonempty() {
    let mut ud = fresh();
    ud.initial_html_inner();
    let text = String::from_utf8(ud.last_string().clone()).unwrap();
    assert!(text.starts_with("<!DOCTYPE html>"));
}

#[test]
fn fresh_container_encodes_the_default_response() {
    let mut ud = fresh();
    ud.last_response_inner();
    assert_eq!(
        ud.last_string().as_slice(),
        b"{\"shutdown_required\":false,\"msgs\":\"\",\"tunnels\":[0,0,0]}" as &[u8]
    );
}

#[test]
fn last_response_json_reflects_the_last_call() {
    let mut ud = fresh();
    assert!(ud.execute_inner(b"\"Quit\"").is_ok());
    ud.last_response_inner();
    assert_eq!(
        ud.last_string().as_slice(),
        b"{\"shutdown_required\":true,\"msgs\":\"\",\"tunnels\":[0,0,0]}" as &[u8]
    );
}

#[test]
fn last_response_json_is_idempotent() {
    let mut ud = fresh();
    assert!(ud.execute_inner(b"\"Instructions\"").is_ok());
    ud.last_response_inner();
    let first = ud.last_string().clone();
    ud.last_response_inner();
    assert_eq!(ud.last_string(), &first);
}

#[test]
fn outbound_slot_is_stable_across_readers() {
    let mut ud = fresh();
    assert!(ud.execute_inner(b"\"ReStart\"").is_ok());
    ud.last_response_inner();
    let snapshot = ud.last_string().clone();
    // Read-only calls do not disturb the slot.
    let _ = ud.is_shutdown_required();
    assert_eq!(ud.last_string(), &snapshot);
    // A failed decode does not disturb it either.
    assert!(ud.execute_inner(b"nonsense").is_err());
    assert_eq!(ud.last_string(), &snapshot);
    // The next outbound-writing call overwrites it.
    ud.initial_html_inner();
    assert_ne!(ud.last_string(), &snapshot);
}

#[test]
fn encoded_response_is_valid_json() {
    let mut ud = fresh();
    assert!(ud.execute_inner(b"\"ReStart\"").is_ok());
    ud.last_response_inner();
    let text = String::from_utf8(ud.last_string().clone()).unwrap();
    let value: serde_json::Value = serde_json::from_str(&text).unwrap();
    assert_eq!(value["shutdown_required"], serde_json::Value::Bool(false));
    assert!(value["msgs"].as_str().unwrap().contains("YOU ARE IN ROOM "));
    let tunnels = value["tunnels"].as_array().unwrap();
    assert_eq!(tunnels.len(), 3);
    for (i, t) in tunnels.iter().enumerate() {
        let n = t.as_u64().unwrap();
        assert!(1 <= n && n <= 20);
        assert_eq!(n as u8, ud.last_response.tunnels[i]);
    }
}

#[test]
fn malformed_action_leaves_state_unchanged() {
    let mut ud = fresh();
    assert!(ud.execute_inner(b"\"Quit\"").is_ok());
    assert!(ud.is_shutdown_required());
    for _ in 0..5 {
        assert_eq!(
            ud.execute_inner(b"{\"Move\":256}"),
            Err(DecodeError::BadAction)
        );
        assert!(ud.is_shutdown_required());
    }
}

#[test]
fn events_pass_through_the_framework_decoder() {
    let mut ud = fresh();
    assert!(ud.handle_event_inner(b"\"Create\"").is_ok());
    assert!(ud.handle_event_inner(b"\"SaveInstanceState\"").is_ok());
    assert!(ud.handle_event_inner(b"\"Stop\"").is_ok());
    assert!(ud.handle_event_inner(b"{\"RestoreInstanceState\":{}}").is_ok());
    assert_eq!(
        ud.handle_event_inner(b"\"NoSuchEvent\""),
        Err(DecodeError::BadEvent)
    );
    assert_eq!(
        ud.handle_event_inner(b"\xff\xfe"),
        Err(DecodeError::BadEvent)
    );
}

#[test]
fn event_response_overwrites_the_last_response() {
    let mut ud = fresh();
    assert!(ud.execute_inner(b"\"Quit\"").is_ok());
    assert!(ud.is_shutdown_required());
    // Any event yields the quiet default response again.
    assert!(ud.handle_event_inner(b"\"Create\"").is_ok());
    assert!(!ud.is_shutdown_required());
    ud.last_response_inner();
    assert_eq!(
        ud.last_string().as_slice(),
        b"{\"shutdown_required\":false,\"msgs\":\"\",\"tunnels\":[0,0,0]}" as &[u8]
    );
}
