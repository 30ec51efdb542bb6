//! Focus gating: the shared focus flag, the query cache policy, and the
//! decoding rules for the windowing system's answers.
//!
//! The actual query (which window is active, what is its title) is platform
//! I/O and lives outside this crate; what lives here is everything decidable
//! from the bytes and strings that come back: which window id a property
//! reply denotes, which of the two title properties to use, and whether a
//! title matches the target.

use vstd::prelude::*;

verus! {

/// Shared focus snapshot: a single boolean, written by the focus poller and
/// read before every stateful interception decision.
pub struct FocusState {
    focused: bool,
}

impl View for FocusState {
    type V = bool;

    closed spec fn view(&self) -> bool {
        self.focused
    }
}

impl FocusState {
    /// A fresh snapshot; the target counts as unfocused until the first poll.
    pub fn new() -> (s: FocusState)
        ensures
            !s@,
    {
        FocusState { focused: false }
    }

    /// The last polled answer: is the target window focused?
    pub fn is_focused(&self) -> (r: bool)
        ensures
            r == self@,
    {
        self.focused
    }

    /// Record a fresh poll result.
    pub fn set_focused(&mut self, focused: bool)
        ensures
            final(self)@ == focused,
    {
        self.focused = focused;
    }
}

impl Default for FocusState {
    /// Same as [`FocusState::new`]: unfocused until the first poll.
    fn default() -> (s: FocusState)
        ensures
            !s@,
    {
        FocusState::new()
    }
}

/// Cache policy for the focus query: remember the last answer and only allow
/// a new query once `cache_duration_ms` has passed, bounding how often the
/// expensive underlying query runs.
pub struct CachedFocusDetector {
    /// The last answer of the underlying query, `false` before any query.
    pub cached_state: bool,
    /// When the last query ran, `None` before any query (so that the very
    /// first check always queries).
    pub last_check_ms: Option<u64>,
    /// How long an answer stays fresh, in milliseconds.
    pub cache_duration_ms: u64,
}

/// Whether the cache must be refreshed at `now_ms`: always on the first
/// check, afterwards once the saturating elapsed time reaches the duration.
pub open spec fn cache_expired(d: CachedFocusDetector, now_ms: u64) -> bool {
    match d.last_check_ms {
        Option::None => true,
        Option::Some(t) => crate::input_listener::offset_from(t, now_ms) >= d.cache_duration_ms,
    }
}

impl CachedFocusDetector {
    /// A fresh cache with the given freshness window; the first check always
    /// queries.
    pub fn new(cache_duration_ms: u64) -> (d: CachedFocusDetector)
        ensures
            !d.cached_state,
            d.last_check_ms is None,
            d.cache_duration_ms == cache_duration_ms,
    {
        CachedFocusDetector { cached_state: false, last_check_ms: None, cache_duration_ms }
    }

    /// Whether the caller must run the underlying query now instead of using
    /// the cached answer.
    pub fn needs_refresh(&self, now_ms: u64) -> (r: bool)
        ensures
            r == cache_expired(*self, now_ms),
    {
        match self.last_check_ms {
            None => true,
            Some(t) => {
                let elapsed = if now_ms >= t {
                    now_ms - t
                } else {
                    0
                };
                elapsed >= self.cache_duration_ms
            },
        }
    }

    /// Store a fresh query answer taken at `now_ms`.
    pub fn record_check(&mut self, now_ms: u64, focused: bool)
        ensures
            final(self).cached_state == focused,
            final(self).last_check_ms == Some(now_ms),
            final(self).cache_duration_ms == old(self).cache_duration_ms,
    {
        self.cached_state = focused;
        self.last_check_ms = Some(now_ms);
    }

    /// The cached answer, for use while the cache is fresh.
    pub fn cached_focus(&self) -> (r: bool)
        ensures
            r == self.cached_state,
    {
        self.cached_state
    }
}

/// The 32-bit window id stored in the first four bytes of a property reply,
/// least-significant byte first.
pub open spec fn window_id_of_bytes(value: Seq<u8>) -> u32 {
    (value[0] + 256 * value[1] + 65536 * value[2] + 16777216 * value[3]) as u32
}

/// Decode a window-id property reply: the reply denotes a window only when
/// it carries at least four bytes and the id they encode is not zero (zero
/// means "no active window").
pub fn active_window_id(value: &Vec<u8>) -> (id: Option<u32>)
    ensures
        id is Some <==> value@.len() >= 4 && window_id_of_bytes(value@) != 0,
        id matches Some(w) ==> w == window_id_of_bytes(value@),
{
    if value.len() < 4 {
        return None;
    }
    let b0 = value[0] as u32;
    let b1 = value[1] as u32;
    let b2 = value[2] as u32;
    let b3 = value[3] as u32;
    let id = b0 + 256 * b1 + 65536 * b2 + 16777216 * b3;
    if id == 0 {
        None
    } else {
        Some(id)
    }
}

/// Choose which title property reply to decode: the modern property when it
/// is non-empty, else the legacy one when that is non-empty, else none.  The
/// choice looks only at the raw bytes; decoding them is the caller's affair.
pub fn select_title_bytes(primary: &Vec<u8>, legacy: &Vec<u8>) -> (chosen: Option<Vec<u8>>)
    ensures
        primary@.len() > 0 ==> (chosen matches Some(v) && v@ == primary@),
        primary@.len() == 0 && legacy@.len() > 0 ==> (chosen matches Some(v) && v@ == legacy@),
        primary@.len() == 0 && legacy@.len() == 0 ==> chosen is None,
{
    if primary.len() > 0 {
        Some(copied_bytes(primary))
    } else if legacy.len() > 0 {
        Some(copied_bytes(legacy))
    } else {
        None
    }
}

/// A fresh vector with the same bytes.
fn copied_bytes(bytes: &Vec<u8>) -> (out: Vec<u8>)
    ensures
        out@ == bytes@,
{
    let mut out: Vec<u8> = Vec::new();
    let mut j: usize = 0;
    while j < bytes.len()
        invariant
            j <= bytes.len(),
            out@ == bytes@.take(j as int),
        decreases bytes.len() - j,
    {
        out.push(bytes[j]);
        proof {
            assert(out@ =~= bytes@.take(j + 1));
        }
        j = j + 1;
    }
    proof {
        assert(bytes@.take(bytes@.len() as int) =~= bytes@);
    }
    out
}

/// Whether a decoded window title matches the target title exactly; a
/// missing title never matches.
pub fn title_matches(title: &Option<String>, target: &String) -> (r: bool)
    ensures
        r == (title matches Some(t) && t@ == target@),
{
    match title {
        Some(t) => t.eq(target),
        None => false,
    }
}

} // verus!
