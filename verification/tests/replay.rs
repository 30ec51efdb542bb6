use doubletap_rl::input_listener::{KeyId, RecordedKeyEvent};
use doubletap_rl::input_simulator::{key_to_code, replay_plan, ReplayStep};

fn ev(key: KeyId, is_press: bool, offset_ms: u64) -> RecordedKeyEvent {
    RecordedKeyEvent { key, is_press, offset_ms }
}

#[test]
fn key_codes_match_event_device_table() {
    assert_eq!(key_to_code(KeyId::KeyW), Some(17));
    assert_eq!(key_to_code(KeyId::KeyA), Some(30));
    assert_eq!(key_to_code(KeyId::KeyS), Some(31));
    assert_eq!(key_to_code(KeyId::KeyD), Some(32));
    assert_eq!(key_to_code(KeyId::ShiftLeft), Some(42));
    assert_eq!(key_to_code(KeyId::Other), None);
}

#[test]
fn empty_recording_yields_empty_plan() {
    let plan = replay_plan(&Vec::new());
    assert!(plan.is_empty());
}

#[test]
fn replay_fidelity_three_events() {
    // Press A at t=0, release A at t=50, press another key at t=50: the
    // schedule waits 0, then 50, then 0, in exactly the recorded order.
    let events = vec![
        ev(KeyId::KeyA, true, 0),
        ev(KeyId::KeyA, false, 50),
        ev(KeyId::KeyW, true, 50),
    ];
    let plan = replay_plan(&events);
    assert_eq!(plan.len(), 3);
    assert_eq!(
        plan[0],
        ReplayStep { delay_ms: 0, code: Some(30), is_press: true }
    );
    assert_eq!(
        plan[1],
        ReplayStep { delay_ms: 50, code: Some(30), is_press: false }
    );
    assert_eq!(
        plan[2],
        ReplayStep { delay_ms: 0, code: Some(17), is_press: true }
    );
}

#[test]
fn delays_are_differences_not_absolutes() {
    let events = vec![
        ev(KeyId::KeyS, true, 20),
        ev(KeyId::KeyS, false, 120),
        ev(KeyId::KeyD, true, 125),
    ];
    let plan = replay_plan(&events);
    assert_eq!(plan[0].delay_ms, 20);
    assert_eq!(plan[1].delay_ms, 100);
    assert_eq!(plan[2].delay_ms, 5);
}

#[test]
fn unmapped_key_still_consumes_its_wait() {
    // The middle key has no device code: its step carries the wait but no
    // injection, and the following step waits only from the skipped event.
    let events = vec![
        ev(KeyId::KeyW, true, 0),
        ev(KeyId::Other, true, 30),
        ev(KeyId::KeyW, false, 40),
    ];
    let plan = replay_plan(&events);
    assert_eq!(plan.len(), 3);
    assert_eq!(plan[1].code, None);
    assert_eq!(plan[1].delay_ms, 30);
    assert_eq!(plan[2].delay_ms, 10);
}

#[test]
fn non_increasing_offsets_wait_zero() {
    let events = vec![ev(KeyId::KeyW, true, 10), ev(KeyId::KeyA, true, 10), ev(KeyId::KeyS, true, 5)];
    let plan = replay_plan(&events);
    assert_eq!(plan[0].delay_ms, 10);
    assert_eq!(plan[1].delay_ms, 0);
    assert_eq!(plan[2].delay_ms, 0);
}
