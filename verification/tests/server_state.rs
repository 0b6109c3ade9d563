use modbus_slave::runtime::{build_status, ServerRuntimeState};

#[test]
fn fresh_state_reports_stopped() {
    let state = ServerRuntimeState::default();
    let st = build_status(&state);
    assert!(!st.running);
    assert_eq!(st.bind, "");
    assert_eq!(st.connections, 0);
    assert!(st.last_error.is_none());
}

#[test]
fn start_transitions_and_reports_the_bind_address() {
    let mut state = ServerRuntimeState::default();
    assert!(state.start_requested().is_none());
    let st = state.start_succeeded(String::from("127.0.0.1:5020"));
    assert!(st.running);
    assert_eq!(st.bind, "127.0.0.1:5020");
    assert_eq!(st.connections, 0);
    assert!(st.last_error.is_none());
}

#[test]
fn start_while_running_returns_same_bind_and_spawns_nothing() {
    let mut state = ServerRuntimeState::default();
    assert!(state.start_requested().is_none());
    state.start_succeeded(String::from("127.0.0.1:5020"));

    // A second and a third start are no-ops reporting the same address.
    let again = state.start_requested().expect("already running");
    let thrice = state.start_requested().expect("still running");
    assert!(again.running && thrice.running);
    assert_eq!(again.bind, "127.0.0.1:5020");
    assert_eq!(thrice.bind, again.bind);
    assert_eq!(again.connections, thrice.connections);
}

#[test]
fn bind_failure_records_the_error_and_stays_stopped() {
    let mut state = ServerRuntimeState::default();
    assert!(state.start_requested().is_none());
    let st = state.start_bind_failed(String::from("address in use"));
    assert!(!st.running);
    assert_eq!(st.last_error.as_deref(), Some("address in use"));
    // The error persists across a stop and is cleared by the next attempt.
    let (_, st) = state.stop();
    assert_eq!(st.last_error.as_deref(), Some("address in use"));
    assert!(state.start_requested().is_none());
    let st = state.start_succeeded(String::from("127.0.0.1:5020"));
    assert!(st.last_error.is_none());
}

#[test]
fn connection_counter_tracks_admissions_and_releases() {
    let mut state = ServerRuntimeState::default();
    state.start_requested();
    state.start_succeeded(String::from("0.0.0.0:502"));

    // k admitted connections drive the count to k.
    let k = 3;
    let mut last = None;
    for _ in 0..k {
        last = Some(state.connection_opened());
    }
    assert_eq!(last.unwrap().connections, k);

    // Releasing one drives it to k - 1.
    let st = state.connection_closed();
    assert_eq!(st.connections, k - 1);
}

#[test]
fn connection_counter_never_goes_negative() {
    let mut state = ServerRuntimeState::default();
    state.start_requested();
    state.start_succeeded(String::from("0.0.0.0:502"));
    let st = state.connection_closed();
    assert_eq!(st.connections, 0);
    let st = state.connection_closed();
    assert_eq!(st.connections, 0);
}

#[test]
fn connection_events_after_stop_change_nothing() {
    let mut state = ServerRuntimeState::default();
    state.start_requested();
    state.start_succeeded(String::from("0.0.0.0:502"));
    state.stop();
    let st = state.connection_closed();
    assert!(!st.running);
    assert_eq!(st.connections, 0);
    let st = state.connection_opened();
    assert!(!st.running);
    assert_eq!(st.connections, 0);
}

#[test]
fn stop_on_a_non_running_server_reports_stopped_without_error() {
    let mut state = ServerRuntimeState::default();
    let (was_running, st) = state.stop();
    assert!(!was_running);
    assert!(!st.running);
    assert_eq!(st.connections, 0);
    assert_eq!(st.bind, "");
    assert!(st.last_error.is_none());
}

#[test]
fn stop_clears_the_runtime_and_keeps_the_error_slot() {
    let mut state = ServerRuntimeState::default();
    state.start_requested();
    state.start_succeeded(String::from("0.0.0.0:502"));
    state.connection_opened();
    let (was_running, st) = state.stop();
    assert!(was_running);
    assert!(!st.running);
    assert_eq!(st.connections, 0);
    assert_eq!(st.bind, "");
}

#[test]
fn runtime_finishing_with_an_error_records_it() {
    let mut state = ServerRuntimeState::default();
    state.start_requested();
    state.start_succeeded(String::from("0.0.0.0:502"));
    let st = state.runtime_finished(Some(String::from("accept failed")));
    assert!(!st.running);
    assert_eq!(st.last_error.as_deref(), Some("accept failed"));
    // A clean finish keeps whatever was recorded before.
    state.start_requested();
    state.start_succeeded(String::from("0.0.0.0:502"));
    let st = state.runtime_finished(None);
    assert!(!st.running);
    assert!(st.last_error.is_none());
}
