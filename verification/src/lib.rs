//! Capture-block-record-replay engine for an auto-clicker.
//!
//! On a qualifying right-click gesture the engine suppresses and records a
//! fixed set of movement keys with millisecond timing, lets a synthetic click
//! go out, and hands back a finalized sequence to replay, guaranteeing that no
//! suppressed key is left stuck down.  The platform collaborators (input hook,
//! window-focus query, virtual input device) live outside this crate; the
//! engine consumes plain values (events, booleans, millisecond clocks) and
//! produces decisions and timed sequences.

pub mod config;
pub mod focus_detector;
pub mod input_listener;
pub mod input_simulator;

pub use config::Config;
pub use focus_detector::{CachedFocusDetector, FocusState};
pub use input_listener::{InterceptionEngine, RecordedKeyEvent, RightClickEvent};
pub use input_simulator::ReplayStep;

use vstd::prelude::*;

verus! {

/// Error vocabulary for the auto-clicker.
#[derive(Debug, Clone)]
pub enum DoubleTapError {
    /// Cannot attach to the platform's input event stream (fatal at startup).
    InputAccess(String),
    /// Cannot create the virtual input device (fatal at startup).
    VirtualDevice(String),
    /// An injection call failed (recoverable per trigger via discard).
    SendEvent(String),
    /// The window-focus query failed (treated as "not focused").
    FocusDetection(String),
    /// The process lacks the rights to read input devices.
    PermissionDenied,
    /// Internal signal delivery is broken (fatal).
    Channel(String),
}

impl DoubleTapError {
    /// A human-readable description of the error, with its detail appended.
    pub fn message(&self) -> (m: String)
        ensures
            self matches DoubleTapError::InputAccess(s) ==> m@ == "Failed to access input devices: "@ + s@,
            self matches DoubleTapError::VirtualDevice(s) ==> m@ == "Failed to create virtual device: "@ + s@,
            self matches DoubleTapError::SendEvent(s) ==> m@ == "Failed to send input event: "@ + s@,
            self matches DoubleTapError::FocusDetection(s) ==> m@ == "Failed to detect window focus: "@ + s@,
            self is PermissionDenied ==> m@ == "Permission denied - add user to 'input' group"@,
            self matches DoubleTapError::Channel(s) ==> m@ == "Channel error: "@ + s@,
    {
        match self {
            DoubleTapError::InputAccess(s) => {
                let mut m = String::from_str("Failed to access input devices: ");
                m.append(s.as_str());
                m
            },
            DoubleTapError::VirtualDevice(s) => {
                let mut m = String::from_str("Failed to create virtual device: ");
                m.append(s.as_str());
                m
            },
            DoubleTapError::SendEvent(s) => {
                let mut m = String::from_str("Failed to send input event: ");
                m.append(s.as_str());
                m
            },
            DoubleTapError::FocusDetection(s) => {
                let mut m = String::from_str("Failed to detect window focus: ");
                m.append(s.as_str());
                m
            },
            DoubleTapError::PermissionDenied => {
                String::from_str("Permission denied - add user to 'input' group")
            },
            DoubleTapError::Channel(s) => {
                let mut m = String::from_str("Channel error: ");
                m.append(s.as_str());
                m
            },
        }
    }
}

} // verus!

