use doubletap_rl::input_listener::{
    is_blocked_key, is_wasd_key, ButtonId, Decision, InputEvent, InterceptionEngine, KeyId,
    RecordedKeyEvent,
};

fn press(k: KeyId) -> InputEvent {
    InputEvent::KeyPress(k)
}

fn release(k: KeyId) -> InputEvent {
    InputEvent::KeyRelease(k)
}

fn right_down() -> InputEvent {
    InputEvent::ButtonPress(ButtonId::Right)
}

fn right_up() -> InputEvent {
    InputEvent::ButtonRelease(ButtonId::Right)
}

#[test]
fn fresh_engine_is_idle() {
    let engine = InterceptionEngine::new();
    assert!(!engine.is_blocking_keys());
    assert!(!engine.should_ignore_event(0));
    assert!(!engine.should_ignore_event(1_000_000));
}

#[test]
fn right_press_when_focused_opens_session() {
    let mut engine = InterceptionEngine::new();
    let outcome = engine.handle_event(right_down(), true, 10);
    assert_eq!(outcome.decision, Decision::PassThrough);
    assert!(!outcome.trigger_fired);
    assert!(engine.is_blocking_keys());
}

#[test]
fn right_release_when_focused_fires_trigger() {
    let mut engine = InterceptionEngine::new();
    engine.handle_event(right_down(), true, 10);
    let outcome = engine.handle_event(right_up(), true, 40);
    assert_eq!(outcome.decision, Decision::PassThrough);
    assert!(outcome.trigger_fired);
}

#[test]
fn focus_gating_blocks_all_state_changes() {
    let mut engine = InterceptionEngine::new();
    let outcome = engine.handle_event(right_down(), false, 10);
    assert_eq!(outcome.decision, Decision::PassThrough);
    assert!(!outcome.trigger_fired);
    assert!(!engine.is_blocking_keys());

    let outcome = engine.handle_event(right_up(), false, 20);
    assert!(!outcome.trigger_fired);

    // A key pressed while unfocused is neither suppressed nor recorded, even
    // after a session was somehow left open.
    engine.handle_event(right_down(), true, 30);
    assert!(engine.is_blocking_keys());
    let outcome = engine.handle_event(press(KeyId::KeyW), false, 35);
    assert_eq!(outcome.decision, Decision::PassThrough);
    let recorded = engine.get_recording(40);
    assert!(recorded.is_empty());
}

#[test]
fn wasd_keys_are_suppressed_and_recorded() {
    let mut engine = InterceptionEngine::new();
    engine.handle_event(right_down(), true, 100);
    let outcome = engine.handle_event(press(KeyId::KeyW), true, 110);
    assert_eq!(outcome.decision, Decision::Suppress);
    let outcome = engine.handle_event(release(KeyId::KeyW), true, 150);
    assert_eq!(outcome.decision, Decision::Suppress);
    let recorded = engine.get_recording(200);
    assert_eq!(recorded.len(), 2);
    assert_eq!(
        recorded[0],
        RecordedKeyEvent { key: KeyId::KeyW, is_press: true, offset_ms: 10 }
    );
    assert_eq!(
        recorded[1],
        RecordedKeyEvent { key: KeyId::KeyW, is_press: false, offset_ms: 50 }
    );
}

#[test]
fn shift_is_recorded_but_passed_through() {
    let mut engine = InterceptionEngine::new();
    engine.handle_event(right_down(), true, 0);
    let outcome = engine.handle_event(press(KeyId::ShiftLeft), true, 5);
    assert_eq!(outcome.decision, Decision::PassThrough);
    let outcome = engine.handle_event(release(KeyId::ShiftLeft), true, 25);
    assert_eq!(outcome.decision, Decision::PassThrough);
    let recorded = engine.get_recording(30);
    assert_eq!(recorded.len(), 2);
    assert_eq!(
        recorded[0],
        RecordedKeyEvent { key: KeyId::ShiftLeft, is_press: true, offset_ms: 5 }
    );
    assert_eq!(
        recorded[1],
        RecordedKeyEvent { key: KeyId::ShiftLeft, is_press: false, offset_ms: 25 }
    );
}

#[test]
fn other_keys_pass_untouched_during_session() {
    let mut engine = InterceptionEngine::new();
    engine.handle_event(right_down(), true, 0);
    let outcome = engine.handle_event(press(KeyId::Other), true, 5);
    assert_eq!(outcome.decision, Decision::PassThrough);
    let recorded = engine.get_recording(10);
    assert!(recorded.is_empty());
}

#[test]
fn keys_before_session_are_not_recorded() {
    let mut engine = InterceptionEngine::new();
    let outcome = engine.handle_event(press(KeyId::KeyW), true, 5);
    assert_eq!(outcome.decision, Decision::PassThrough);
    engine.handle_event(right_down(), true, 10);
    let recorded = engine.get_recording(20);
    assert!(recorded.is_empty());
}

#[test]
fn echo_window_ignores_clicks() {
    let mut engine = InterceptionEngine::new();
    engine.mark_auto_click_sent(1000);
    // Inside [T, T+100): both halves of the gesture are ignored.
    assert!(engine.should_ignore_event(1000));
    assert!(engine.should_ignore_event(1099));
    let outcome = engine.handle_event(right_down(), true, 1050);
    assert_eq!(outcome.decision, Decision::PassThrough);
    assert!(!engine.is_blocking_keys());
    let outcome = engine.handle_event(right_up(), true, 1060);
    assert!(!outcome.trigger_fired);
    // At exactly T+100 the window is over.
    assert!(!engine.should_ignore_event(1100));
    engine.handle_event(right_down(), true, 1100);
    assert!(engine.is_blocking_keys());
}

#[test]
fn echo_window_does_not_gate_key_recording() {
    let mut engine = InterceptionEngine::new();
    engine.handle_event(right_down(), true, 0);
    engine.mark_auto_click_sent(10);
    // The echo guard stops clicks, not keys; but marking the click closed
    // the session, so nothing is recorded either.
    let outcome = engine.handle_event(press(KeyId::KeyW), true, 20);
    assert_eq!(outcome.decision, Decision::PassThrough);
}

#[test]
fn second_right_press_keeps_recording() {
    let mut engine = InterceptionEngine::new();
    engine.handle_event(right_down(), true, 0);
    engine.handle_event(press(KeyId::KeyW), true, 10);
    // A retriggered press must not clear the in-flight recording.
    engine.handle_event(right_down(), true, 20);
    let recorded = engine.get_recording(30);
    assert_eq!(recorded.len(), 2);
    assert_eq!(
        recorded[0],
        RecordedKeyEvent { key: KeyId::KeyW, is_press: true, offset_ms: 10 }
    );
    // KeyW was still held, so a synthetic release closes it at the end.
    assert_eq!(
        recorded[1],
        RecordedKeyEvent { key: KeyId::KeyW, is_press: false, offset_ms: 30 }
    );
}

#[test]
fn held_wasd_key_gets_synthetic_release() {
    let mut engine = InterceptionEngine::new();
    engine.handle_event(right_down(), true, 0);
    engine.handle_event(press(KeyId::KeyA), true, 3);
    engine.handle_event(press(KeyId::KeyD), true, 7);
    engine.handle_event(release(KeyId::KeyA), true, 9);
    let recorded = engine.get_recording(42);
    // KeyD was still held: one release at the finalize offset, counts equal.
    assert_eq!(recorded.len(), 4);
    assert_eq!(
        recorded[3],
        RecordedKeyEvent { key: KeyId::KeyD, is_press: false, offset_ms: 42 }
    );
    let d_presses = recorded
        .iter()
        .filter(|e| e.key == KeyId::KeyD && e.is_press)
        .count();
    let d_releases = recorded
        .iter()
        .filter(|e| e.key == KeyId::KeyD && !e.is_press)
        .count();
    assert_eq!(d_presses, d_releases);
}

#[test]
fn held_shift_press_is_removed_completed_pair_kept() {
    let mut engine = InterceptionEngine::new();
    engine.handle_event(right_down(), true, 0);
    // A completed press/release pair of the modifier...
    engine.handle_event(press(KeyId::ShiftLeft), true, 5);
    engine.handle_event(release(KeyId::ShiftLeft), true, 15);
    // ...then pressed again and still held at finalize time.
    engine.handle_event(press(KeyId::ShiftLeft), true, 20);
    let recorded = engine.get_recording(50);
    // The blanket filter removes every modifier press, the release stays,
    // and no synthetic release is added for the modifier.
    assert_eq!(recorded.len(), 1);
    assert_eq!(
        recorded[0],
        RecordedKeyEvent { key: KeyId::ShiftLeft, is_press: false, offset_ms: 15 }
    );
}

#[test]
fn held_shift_and_wasd_resolved_independently() {
    let mut engine = InterceptionEngine::new();
    engine.handle_event(right_down(), true, 0);
    engine.handle_event(press(KeyId::ShiftLeft), true, 2);
    engine.handle_event(press(KeyId::KeyW), true, 4);
    let recorded = engine.get_recording(60);
    assert_eq!(recorded.len(), 2);
    assert_eq!(
        recorded[0],
        RecordedKeyEvent { key: KeyId::KeyW, is_press: true, offset_ms: 4 }
    );
    assert_eq!(
        recorded[1],
        RecordedKeyEvent { key: KeyId::KeyW, is_press: false, offset_ms: 60 }
    );
}

#[test]
fn get_recording_drains_but_keeps_session_open() {
    let mut engine = InterceptionEngine::new();
    engine.handle_event(right_down(), true, 0);
    engine.handle_event(press(KeyId::KeyS), true, 5);
    engine.handle_event(release(KeyId::KeyS), true, 8);
    let first = engine.get_recording(10);
    assert_eq!(first.len(), 2);
    assert!(engine.is_blocking_keys());
    let second = engine.get_recording(12);
    assert!(second.is_empty());
}

#[test]
fn stop_blocking_discards_recording() {
    let mut engine = InterceptionEngine::new();
    engine.handle_event(right_down(), true, 0);
    engine.handle_event(press(KeyId::KeyW), true, 5);
    engine.stop_blocking_keys();
    assert!(!engine.is_blocking_keys());
    let recorded = engine.get_recording(10);
    assert!(recorded.is_empty());
}

#[test]
fn failed_injection_discards_session() {
    let mut engine = InterceptionEngine::new();
    engine.handle_event(right_down(), true, 0);
    engine.handle_event(press(KeyId::KeyW), true, 5);
    let harvested = engine.resolve_trigger(true, false, 20);
    assert!(harvested.is_empty());
    assert!(!engine.is_blocking_keys());
    // The echo guard was not armed: a new gesture starts at once.
    assert!(!engine.should_ignore_event(21));
}

#[test]
fn focus_loss_at_trigger_discards_session() {
    let mut engine = InterceptionEngine::new();
    engine.handle_event(right_down(), true, 0);
    engine.handle_event(press(KeyId::KeyA), true, 5);
    let harvested = engine.resolve_trigger(false, true, 20);
    assert!(harvested.is_empty());
    assert!(!engine.is_blocking_keys());
}

#[test]
fn successful_trigger_harvests_then_arms_echo_guard() {
    let mut engine = InterceptionEngine::new();
    engine.handle_event(right_down(), true, 0);
    engine.handle_event(press(KeyId::KeyW), true, 10);
    let harvested = engine.resolve_trigger(true, true, 30);
    assert_eq!(harvested.len(), 2);
    assert_eq!(
        harvested[0],
        RecordedKeyEvent { key: KeyId::KeyW, is_press: true, offset_ms: 10 }
    );
    assert_eq!(
        harvested[1],
        RecordedKeyEvent { key: KeyId::KeyW, is_press: false, offset_ms: 30 }
    );
    assert!(!engine.is_blocking_keys());
    assert!(engine.should_ignore_event(50));
    assert!(!engine.should_ignore_event(130));
}

#[test]
fn record_before_session_start_uses_saturating_offset() {
    let mut engine = InterceptionEngine::new();
    engine.handle_event(right_down(), true, 100);
    // A clock reading before the session start saturates to offset zero.
    engine.record_key_event(KeyId::KeyW, true, 40);
    let recorded = engine.get_recording(100);
    assert_eq!(
        recorded[0],
        RecordedKeyEvent { key: KeyId::KeyW, is_press: true, offset_ms: 0 }
    );
}

#[test]
fn key_role_tables() {
    assert!(is_wasd_key(KeyId::KeyW));
    assert!(is_wasd_key(KeyId::KeyA));
    assert!(is_wasd_key(KeyId::KeyS));
    assert!(is_wasd_key(KeyId::KeyD));
    assert!(!is_wasd_key(KeyId::ShiftLeft));
    assert!(!is_wasd_key(KeyId::Other));
    assert!(is_blocked_key(KeyId::KeyW));
    assert!(is_blocked_key(KeyId::ShiftLeft));
    assert!(!is_blocked_key(KeyId::Other));
}
