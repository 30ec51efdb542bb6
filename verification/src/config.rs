//! Static configuration for the auto-clicker.

use vstd::prelude::*;

verus! {

/// Configuration knobs for the auto-clicker.
#[derive(Debug, Clone)]
pub struct Config {
    /// Delay in milliseconds between the original click and the injected one.
    pub click_delay_ms: u64,
    /// Title of the window that gates interception.
    pub target_window: String,
    /// Enable verbose logging in the surrounding process.
    pub verbose: bool,
}

impl Default for Config {
    /// The stock configuration: a 15 ms post-release injection delay, quiet
    /// logging, aimed at the stock window title.
    fn default() -> (c: Config)
        ensures
            c.click_delay_ms == 15,
            c.target_window@ == "Rocket League"@,
            !c.verbose,
    {
        Config {
            click_delay_ms: 15,
            target_window: String::from_str("Rocket League"),
            verbose: false,
        }
    }
}

impl Config {
    /// Replace the click delay, keeping the other knobs.
    pub fn with_delay(self, delay_ms: u64) -> (c: Config)
        ensures
            c.click_delay_ms == delay_ms,
            c.target_window == self.target_window,
            c.verbose == self.verbose,
    {
        Config { click_delay_ms: delay_ms, ..self }
    }

    /// Replace the target window title, keeping the other knobs.
    pub fn with_target_window(self, window: String) -> (c: Config)
        ensures
            c.click_delay_ms == self.click_delay_ms,
            c.target_window == window,
            c.verbose == self.verbose,
    {
        Config { target_window: window, ..self }
    }

    /// Switch verbose logging on or off, keeping the other knobs.
    pub fn with_verbose(self, verbose: bool) -> (c: Config)
        ensures
            c.click_delay_ms == self.click_delay_ms,
            c.target_window == self.target_window,
            c.verbose == verbose,
    {
        Config { verbose, ..self }
    }
}

} // verus!
