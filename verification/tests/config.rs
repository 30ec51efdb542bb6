use doubletap_rl::{Config, DoubleTapError};

#[test]
fn default_config_values() {
    let config = Config::default();
    assert_eq!(config.click_delay_ms, 15);
    assert_eq!(config.target_window, "Rocket League");
    assert!(!config.verbose);
}

#[test]
fn builders_replace_one_knob_each() {
    let config = Config::default()
        .with_delay(15)
        .with_target_window(String::from("Rocket League (64-bit, DX11, Cooked)"))
        .with_verbose(true);
    assert_eq!(config.click_delay_ms, 15);
    assert_eq!(config.target_window, "Rocket League (64-bit, DX11, Cooked)");
    assert!(config.verbose);

    let config = config.with_delay(7);
    assert_eq!(config.click_delay_ms, 7);
    assert_eq!(config.target_window, "Rocket League (64-bit, DX11, Cooked)");
    assert!(config.verbose);
}

#[test]
fn error_messages_carry_their_detail() {
    assert_eq!(
        DoubleTapError::InputAccess(String::from("no hook")).message(),
        "Failed to access input devices: no hook"
    );
    assert_eq!(
        DoubleTapError::VirtualDevice(String::from("no uinput")).message(),
        "Failed to create virtual device: no uinput"
    );
    assert_eq!(
        DoubleTapError::SendEvent(String::from("socket gone")).message(),
        "Failed to send input event: socket gone"
    );
    assert_eq!(
        DoubleTapError::FocusDetection(String::from("no display")).message(),
        "Failed to detect window focus: no display"
    );
    assert_eq!(
        DoubleTapError::PermissionDenied.message(),
        "Permission denied - add user to 'input' group"
    );
    assert_eq!(
        DoubleTapError::Channel(String::from("closed")).message(),
        "Channel error: closed"
    );
}
