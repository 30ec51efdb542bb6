use doubletap_rl::focus_detector::{
    active_window_id, select_title_bytes, title_matches, CachedFocusDetector, FocusState,
};

#[test]
fn focus_state_starts_unfocused() {
    let state = FocusState::new();
    assert!(!state.is_focused());
    let state = FocusState::default();
    assert!(!state.is_focused());
}

#[test]
fn focus_state_tracks_last_poll() {
    let mut state = FocusState::new();
    state.set_focused(true);
    assert!(state.is_focused());
    state.set_focused(false);
    assert!(!state.is_focused());
}

#[test]
fn cache_first_check_always_queries() {
    let cache = CachedFocusDetector::new(100);
    assert!(cache.needs_refresh(0));
    assert!(!cache.cached_focus());
}

#[test]
fn cache_expires_after_duration() {
    let mut cache = CachedFocusDetector::new(100);
    cache.record_check(1000, true);
    assert!(cache.cached_focus());
    assert!(!cache.needs_refresh(1050));
    assert!(!cache.needs_refresh(1099));
    // At exactly the duration the answer is stale.
    assert!(cache.needs_refresh(1100));
    assert!(cache.needs_refresh(2000));
    // A clock reading before the last check counts as zero elapsed.
    assert!(!cache.needs_refresh(900));
}

#[test]
fn cache_zero_duration_always_queries() {
    let mut cache = CachedFocusDetector::new(0);
    cache.record_check(10, true);
    assert!(cache.needs_refresh(10));
}

#[test]
fn window_id_needs_four_bytes() {
    assert_eq!(active_window_id(&Vec::new()), None);
    assert_eq!(active_window_id(&vec![1, 2, 3]), None);
}

#[test]
fn window_id_zero_means_no_window() {
    assert_eq!(active_window_id(&vec![0, 0, 0, 0]), None);
}

#[test]
fn window_id_reads_least_significant_byte_first() {
    assert_eq!(active_window_id(&vec![0x12, 0x34, 0x00, 0x00]), Some(0x3412));
    assert_eq!(
        active_window_id(&vec![0x78, 0x56, 0x34, 0x12, 0xff]),
        Some(0x12345678)
    );
    assert_eq!(active_window_id(&vec![1, 0, 0, 0]), Some(1));
    assert_eq!(
        active_window_id(&vec![0xff, 0xff, 0xff, 0xff]),
        Some(u32::MAX)
    );
}

#[test]
fn title_selection_prefers_primary() {
    let primary = vec![b'R', b'L'];
    let legacy = vec![b'x'];
    assert_eq!(
        select_title_bytes(&primary, &legacy),
        Some(vec![b'R', b'L'])
    );
    assert_eq!(select_title_bytes(&primary, &Vec::new()), Some(primary.clone()));
}

#[test]
fn title_selection_falls_back_to_legacy() {
    let legacy = vec![b'x', b'y'];
    assert_eq!(select_title_bytes(&Vec::new(), &legacy), Some(legacy.clone()));
}

#[test]
fn title_selection_empty_when_both_empty() {
    assert_eq!(select_title_bytes(&Vec::new(), &Vec::new()), None);
}

#[test]
fn title_match_is_exact() {
    let target = String::from("Rocket League");
    assert!(title_matches(&Some(String::from("Rocket League")), &target));
    assert!(!title_matches(&Some(String::from("Rocket League 2")), &target));
    assert!(!title_matches(&Some(String::from("rocket league")), &target));
    assert!(!title_matches(&None, &target));
}
