//! The capture-block-record-replay engine: per-event classification, the
//! recording session state machine, and the held-key finalization policy.
//!
//! The platform input hook delivers one event at a time and must be told,
//! synchronously, whether to pass the event through to the host or to
//! suppress it.  [`InterceptionEngine::handle_event`] makes that decision and
//! updates the session state; the dispatch loop later harvests the recording
//! with [`InterceptionEngine::get_recording`] or throws it away with
//! [`InterceptionEngine::stop_blocking_keys`].  Time enters the engine only
//! as explicit millisecond counters, so every decision is a function of plain
//! values.

use vstd::prelude::*;

verus! {

/// Minimum time between synthetic clicks, in milliseconds.  A physical-looking
/// click observed sooner than this after a synthetic one is treated as echo of
/// the injection and must not retrigger the engine.
pub const MIN_CLICK_INTERVAL_MS: u64 = 100;

/// Logical identity of a keyboard key, as far as the engine cares: the four
/// movement keys and the one pass-through modifier are distinguished, all
/// other keys are alike (they are never recorded or suppressed).
#[derive(Clone, Copy, Debug, PartialEq, Eq, Structural)]
pub enum KeyId {
    KeyW,
    KeyA,
    KeyS,
    KeyD,
    ShiftLeft,
    Other,
}

/// Logical identity of a mouse button.  Only the right button drives the
/// trigger gesture.
#[derive(Clone, Copy, Debug, PartialEq, Eq, Structural)]
pub enum ButtonId {
    Left,
    Right,
    Middle,
    Other,
}

/// One raw input event as delivered by the platform hook.
#[derive(Clone, Copy, Debug, PartialEq, Eq, Structural)]
pub enum InputEvent {
    ButtonPress(ButtonId),
    ButtonRelease(ButtonId),
    KeyPress(KeyId),
    KeyRelease(KeyId),
}

/// What the engine does with a key while a session is recording.
#[derive(Clone, Copy, Debug, PartialEq, Eq, Structural)]
pub enum KeyRole {
    /// Recorded and withheld from the host (movement keys).
    Suppressed,
    /// Recorded but still delivered to the host (the held modifier).
    PassThroughRecorded,
    /// Neither recorded nor withheld.
    Ignored,
}

/// A recorded key transition with its time offset from the session start.
#[derive(Clone, Copy, Debug, PartialEq, Eq, Structural)]
pub struct RecordedKeyEvent {
    /// The key that was pressed or released.
    pub key: KeyId,
    /// Whether this is a press (`true`) or a release (`false`).
    pub is_press: bool,
    /// Milliseconds elapsed since the recording started.
    pub offset_ms: u64,
}

/// Notification that the trigger gesture completed (right button released).
#[derive(Clone, Copy, Debug)]
pub struct RightClickEvent {
    /// Millisecond clock reading when the release was observed.
    pub timestamp_ms: u64,
}

/// Whether an event is delivered to the host or withheld from it.
#[derive(Clone, Copy, Debug, PartialEq, Eq, Structural)]
pub enum Decision {
    PassThrough,
    Suppress,
}

/// The classifier's full answer for one event: what to do with the event
/// itself, and whether the trigger gesture just completed.
#[derive(Clone, Copy, Debug, PartialEq, Eq, Structural)]
pub struct EventOutcome {
    pub decision: Decision,
    pub trigger_fired: bool,
}

/// Mathematical model of the engine state: the echo guard, the session phase,
/// the recording buffer and the held-key tracker, all as plain values.
#[verifier::ext_equal]
pub ghost struct EngineModel {
    /// Clock reading of the last synthetic click, `0` if none was sent yet.
    pub last_auto_click_ms: u64,
    /// `true` while a recording session is open (keys are being intercepted).
    pub blocking: bool,
    /// Clock reading that fixes offset zero for the open session.
    pub recording_start_ms: u64,
    /// Append-only chronological log of recorded key transitions.
    pub recorded: Seq<RecordedKeyEvent>,
    /// Keys whose last recorded transition was an unmatched press, in order
    /// of first press.
    pub held: Seq<KeyId>,
}

/// The role the engine assigns to each key.
pub open spec fn key_role(key: KeyId) -> KeyRole {
    match key {
        KeyId::KeyW | KeyId::KeyA | KeyId::KeyS | KeyId::KeyD => KeyRole::Suppressed,
        KeyId::ShiftLeft => KeyRole::PassThroughRecorded,
        KeyId::Other => KeyRole::Ignored,
    }
}

/// `now - start`, saturating at zero, as the engine computes time offsets.
pub open spec fn offset_from(start_ms: u64, now_ms: u64) -> u64 {
    if now_ms >= start_ms {
        (now_ms - start_ms) as u64
    } else {
        0
    }
}

/// The engine state at process start: idle, nothing recorded, no click sent.
pub open spec fn initial_engine() -> EngineModel {
    EngineModel {
        last_auto_click_ms: 0,
        blocking: false,
        recording_start_ms: 0,
        recorded: Seq::empty(),
        held: Seq::empty(),
    }
}

/// Whether a click observed at `now_ms` falls in the echo window of the last
/// synthetic click and must be ignored by the trigger rules.
pub open spec fn in_echo_window(m: EngineModel, now_ms: u64) -> bool {
    m.last_auto_click_ms != 0 && now_ms < m.last_auto_click_ms + MIN_CLICK_INTERVAL_MS
}

/// State after a qualifying right press: open a fresh session, unless one is
/// already open, in which case nothing changes (idempotent start).
pub open spec fn session_started(m: EngineModel, now_ms: u64) -> EngineModel {
    if m.blocking {
        m
    } else {
        EngineModel {
            blocking: true,
            recording_start_ms: now_ms,
            recorded: Seq::empty(),
            held: Seq::empty(),
            ..m
        }
    }
}

/// State after a synthetic click went out: remember its time and stop
/// intercepting; the buffers are left alone (the harvest already copied them).
pub open spec fn click_marked(m: EngineModel, now_ms: u64) -> EngineModel {
    EngineModel { last_auto_click_ms: now_ms, blocking: false, ..m }
}

/// State after a discard: stop intercepting and drop everything recorded.
pub open spec fn session_discarded(m: EngineModel) -> EngineModel {
    EngineModel { blocking: false, recorded: Seq::empty(), held: Seq::empty(), ..m }
}

/// State after a harvest: the buffers are drained; the phase and the echo
/// guard are untouched.
pub open spec fn session_harvested(m: EngineModel) -> EngineModel {
    EngineModel { recorded: Seq::empty(), held: Seq::empty(), ..m }
}

/// `held` with every occurrence of `key` removed.
pub open spec fn keys_without(held: Seq<KeyId>, key: KeyId) -> Seq<KeyId>
    decreases held.len(),
{
    if held.len() == 0 {
        Seq::empty()
    } else {
        let rest = keys_without(held.drop_last(), key);
        if held.last() == key {
            rest
        } else {
            rest.push(held.last())
        }
    }
}

/// State after one key transition is recorded: the transition is appended to
/// the log with its offset, and the held-key tracker is updated (a press adds
/// the key unless already held, a release removes it).
pub open spec fn key_recorded(m: EngineModel, key: KeyId, is_press: bool, now_ms: u64) -> EngineModel {
    EngineModel {
        recorded: m.recorded.push(
            RecordedKeyEvent {
                key,
                is_press,
                offset_ms: offset_from(m.recording_start_ms, now_ms),
            },
        ),
        held: if is_press {
            if m.held.contains(key) {
                m.held
            } else {
                m.held.push(key)
            }
        } else {
            keys_without(m.held, key)
        },
        ..m
    }
}

/// Copy of `held` with every occurrence of `key` removed, as
/// [`keys_without`] describes.
fn filtered_keys(held: &Vec<KeyId>, key: KeyId) -> (out: Vec<KeyId>)
    ensures
        out@ == keys_without(held@, key),
{
    let mut out: Vec<KeyId> = Vec::new();
    let mut j: usize = 0;
    while j < held.len()
        invariant
            j <= held.len(),
            out@ == keys_without(held@.take(j as int), key),
        decreases held.len() - j,
    {
        let k = held[j];
        proof {
            assert(held@.take(j + 1).drop_last() =~= held@.take(j as int));
            assert(held@.take(j + 1).last() == k);
        }
        if !(k == key) {
            out.push(k);
        }
        j = j + 1;
    }
    proof {
        assert(held@.take(held@.len() as int) =~= held@);
    }
    out
}

/// The outcome that delivers the event unmodified and fires nothing.
pub open spec fn pass_outcome() -> EventOutcome {
    EventOutcome { decision: Decision::PassThrough, trigger_fired: false }
}

/// The classifier's answer for a key transition: while a session is open and
/// the target is focused, a pass-through key is recorded and delivered, a
/// suppressed key is recorded and withheld; everything else passes untouched.
pub open spec fn classified_key(
    m: EngineModel,
    key: KeyId,
    is_press: bool,
    focused: bool,
    now_ms: u64,
) -> (EngineModel, EventOutcome) {
    if m.blocking && focused && key_role(key) is PassThroughRecorded {
        (key_recorded(m, key, is_press, now_ms), pass_outcome())
    } else if m.blocking && focused && key_role(key) is Suppressed {
        (
            key_recorded(m, key, is_press, now_ms),
            EventOutcome { decision: Decision::Suppress, trigger_fired: false },
        )
    } else {
        (m, pass_outcome())
    }
}

/// The classifier: one event in, the next engine state and the decision out.
/// The echo check dominates the trigger rules (a self-generated click must
/// not restart recording), and focus gates every stateful rule.  Button
/// events always pass through physically; only suppressed keys during an
/// open, focused session are withheld.
pub open spec fn classified(
    m: EngineModel,
    event: InputEvent,
    focused: bool,
    now_ms: u64,
) -> (EngineModel, EventOutcome) {
    match event {
        InputEvent::ButtonPress(b) => {
            if b == ButtonId::Right && !in_echo_window(m, now_ms) && focused {
                (session_started(m, now_ms), pass_outcome())
            } else {
                (m, pass_outcome())
            }
        },
        InputEvent::ButtonRelease(b) => {
            if b == ButtonId::Right && !in_echo_window(m, now_ms) && focused {
                (m, EventOutcome { decision: Decision::PassThrough, trigger_fired: true })
            } else {
                (m, pass_outcome())
            }
        },
        InputEvent::KeyPress(k) => classified_key(m, k, true, focused, now_ms),
        InputEvent::KeyRelease(k) => classified_key(m, k, false, focused, now_ms),
    }
}

/// Whether a recorded transition is a press of the pass-through modifier.
pub open spec fn is_shift_press(e: RecordedKeyEvent) -> bool {
    e.key == KeyId::ShiftLeft && e.is_press
}

/// `events` with every press of the pass-through modifier removed.  The
/// removal is deliberately blanket: when the modifier is still physically
/// held at harvest time, no press of it may be replayed, whether or not an
/// earlier press/release pair completed.
pub open spec fn without_shift_presses(events: Seq<RecordedKeyEvent>) -> Seq<RecordedKeyEvent>
    decreases events.len(),
{
    if events.len() == 0 {
        Seq::empty()
    } else {
        let rest = without_shift_presses(events.drop_last());
        if is_shift_press(events.last()) {
            rest
        } else {
            rest.push(events.last())
        }
    }
}

/// The finalization policy, applied key by key in held order: a still-held
/// suppressed key gets a synthetic release at `end_offset` (so it is never
/// left stuck down), while a still-held pass-through modifier has its press
/// entries removed (the user's physical hold already reached the host, so
/// replaying the press would conflict with it).
pub open spec fn finalized_events(
    events: Seq<RecordedKeyEvent>,
    held: Seq<KeyId>,
    end_offset: u64,
) -> Seq<RecordedKeyEvent>
    decreases held.len(),
{
    if held.len() == 0 {
        events
    } else {
        let resolved = if held.first() == KeyId::ShiftLeft {
            without_shift_presses(events)
        } else {
            events.push(
                RecordedKeyEvent { key: held.first(), is_press: false, offset_ms: end_offset },
            )
        };
        finalized_events(resolved, held.drop_first(), end_offset)
    }
}

/// The replay sequence a harvest at `now_ms` produces from state `m`.
pub open spec fn harvested_sequence(m: EngineModel, now_ms: u64) -> Seq<RecordedKeyEvent> {
    finalized_events(m.recorded, m.held, offset_from(m.recording_start_ms, now_ms))
}

/// Number of presses of `key` in `events`.
pub open spec fn press_count(events: Seq<RecordedKeyEvent>, key: KeyId) -> nat
    decreases events.len(),
{
    if events.len() == 0 {
        0
    } else {
        press_count(events.drop_last(), key) + if events.last().key == key
            && events.last().is_press {
            1nat
        } else {
            0nat
        }
    }
}

/// Number of releases of `key` in `events`.
pub open spec fn release_count(events: Seq<RecordedKeyEvent>, key: KeyId) -> nat
    decreases events.len(),
{
    if events.len() == 0 {
        0
    } else {
        release_count(events.drop_last(), key) + if events.last().key == key
            && !events.last().is_press {
            1nat
        } else {
            0nat
        }
    }
}

/// Appending one event raises exactly the matching count by one.
proof fn lemma_counts_push(events: Seq<RecordedKeyEvent>, e: RecordedKeyEvent, key: KeyId)
    ensures
        press_count(events.push(e), key) == press_count(events, key) + if e.key == key
            && e.is_press {
            1nat
        } else {
            0nat
        },
        release_count(events.push(e), key) == release_count(events, key) + if e.key == key
            && !e.is_press {
            1nat
        } else {
            0nat
        },
{
    assert(events.push(e).drop_last() =~= events);
}

/// Removing the modifier's presses does not change the counts of any other
/// key.
proof fn lemma_shift_filter_counts(events: Seq<RecordedKeyEvent>, key: KeyId)
    requires
        key != KeyId::ShiftLeft,
    ensures
        press_count(without_shift_presses(events), key) == press_count(events, key),
        release_count(without_shift_presses(events), key) == release_count(events, key),
    decreases events.len(),
{
    if events.len() != 0 {
        lemma_shift_filter_counts(events.drop_last(), key);
        if !is_shift_press(events.last()) {
            lemma_counts_push(without_shift_presses(events.drop_last()), events.last(), key);
        }
    }
}

/// Whether `events` holds no press of the pass-through modifier.
pub open spec fn no_shift_press_in(events: Seq<RecordedKeyEvent>) -> bool {
    forall|i: int| 0 <= i < events.len() ==> !is_shift_press(#[trigger] events[i])
}

/// Appending a non-modifier-press keeps the log free of modifier presses.
proof fn lemma_no_shift_press_push(events: Seq<RecordedKeyEvent>, e: RecordedKeyEvent)
    requires
        no_shift_press_in(events),
        !is_shift_press(e),
    ensures
        no_shift_press_in(events.push(e)),
{
    assert forall|i: int| 0 <= i < events.push(e).len() implies !is_shift_press(
        events.push(e)[i],
    ) by {
        if i < events.len() {
            assert(events.push(e)[i] == events[i]);
        } else {
            assert(events.push(e)[i] == e);
        }
    }
}

/// The filtered sequence holds no press of the modifier.
proof fn lemma_shift_filter_no_shift_press(events: Seq<RecordedKeyEvent>)
    ensures
        no_shift_press_in(without_shift_presses(events)),
    decreases events.len(),
{
    if events.len() != 0 {
        lemma_shift_filter_no_shift_press(events.drop_last());
        if !is_shift_press(events.last()) {
            lemma_no_shift_press_push(without_shift_presses(events.drop_last()), events.last());
        }
    }
}

/// Everything that is not a press of the modifier survives the filter.
proof fn lemma_shift_filter_contains(events: Seq<RecordedKeyEvent>, e: RecordedKeyEvent)
    requires
        events.contains(e),
        !is_shift_press(e),
    ensures
        without_shift_presses(events).contains(e),
    decreases events.len(),
{
    if events.len() != 0 {
        if events.last() == e {
            let rest = without_shift_presses(events.drop_last());
            assert(rest.push(e)[rest.len() as int] == e);
        } else {
            let i = choose|i: int| 0 <= i < events.len() && events[i] == e;
            assert(events.drop_last()[i] == e);
            lemma_shift_filter_contains(events.drop_last(), e);
            if !is_shift_press(events.last()) {
                let rest = without_shift_presses(events.drop_last());
                let j = choose|j: int| 0 <= j < rest.len() && rest[j] == e;
                assert(rest.push(events.last())[j] == e);
            }
        }
    }
}

/// Finalization never loses an already-recorded event, unless it is a press
/// of the still-held modifier.
proof fn lemma_finalized_preserves_event(
    events: Seq<RecordedKeyEvent>,
    held: Seq<KeyId>,
    end_offset: u64,
    e: RecordedKeyEvent,
)
    requires
        events.contains(e),
        !is_shift_press(e),
    ensures
        finalized_events(events, held, end_offset).contains(e),
    decreases held.len(),
{
    if held.len() != 0 {
        if held.first() == KeyId::ShiftLeft {
            lemma_shift_filter_contains(events, e);
            lemma_finalized_preserves_event(
                without_shift_presses(events),
                held.drop_first(),
                end_offset,
                e,
            );
        } else {
            let pushed = events.push(
                RecordedKeyEvent { key: held.first(), is_press: false, offset_ms: end_offset },
            );
            let i = choose|i: int| 0 <= i < events.len() && events[i] == e;
            assert(pushed[i] == e);
            lemma_finalized_preserves_event(pushed, held.drop_first(), end_offset, e);
        }
    }
}

/// Once the log holds no press of the modifier, finalization keeps it that
/// way: it only appends releases and removes further presses.
proof fn lemma_finalized_keeps_no_shift_press(
    events: Seq<RecordedKeyEvent>,
    held: Seq<KeyId>,
    end_offset: u64,
)
    requires
        no_shift_press_in(events),
    ensures
        no_shift_press_in(finalized_events(events, held, end_offset)),
    decreases held.len(),
{
    if held.len() != 0 {
        if held.first() == KeyId::ShiftLeft {
            lemma_shift_filter_no_shift_press(events);
            lemma_finalized_keeps_no_shift_press(
                without_shift_presses(events),
                held.drop_first(),
                end_offset,
            );
        } else {
            let rel = RecordedKeyEvent { key: held.first(), is_press: false, offset_ms: end_offset };
            lemma_no_shift_press_push(events, rel);
            lemma_finalized_keeps_no_shift_press(events.push(rel), held.drop_first(), end_offset);
        }
    }
}

/// While the still-held modifier waits its turn in `held`, finalization ends
/// with no press of it in the output.
proof fn lemma_finalized_no_shift_press(
    events: Seq<RecordedKeyEvent>,
    held: Seq<KeyId>,
    end_offset: u64,
)
    requires
        held.contains(KeyId::ShiftLeft),
    ensures
        no_shift_press_in(finalized_events(events, held, end_offset)),
    decreases held.len(),
{
    if held.first() == KeyId::ShiftLeft {
        lemma_shift_filter_no_shift_press(events);
        lemma_finalized_keeps_no_shift_press(
            without_shift_presses(events),
            held.drop_first(),
            end_offset,
        );
    } else {
        let i = choose|i: int| 0 <= i < held.len() && held[i] == KeyId::ShiftLeft;
        assert(held.drop_first()[i - 1] == KeyId::ShiftLeft);
        assert(held.drop_first().contains(KeyId::ShiftLeft));
        let pushed = events.push(
            RecordedKeyEvent { key: held.first(), is_press: false, offset_ms: end_offset },
        );
        lemma_finalized_no_shift_press(pushed, held.drop_first(), end_offset);
    }
}

/// Finalization leaves the counts of a key untouched when that key is not
/// held (only held keys gain a synthetic release, and the modifier filter
/// removes only modifier presses).
proof fn lemma_finalized_counts_not_held(
    events: Seq<RecordedKeyEvent>,
    held: Seq<KeyId>,
    end_offset: u64,
    key: KeyId,
)
    requires
        !held.contains(key),
        key != KeyId::ShiftLeft,
    ensures
        press_count(finalized_events(events, held, end_offset), key) == press_count(events, key),
        release_count(finalized_events(events, held, end_offset), key) == release_count(
            events,
            key,
        ),
    decreases held.len(),
{
    if held.len() != 0 {
        assert(!held.drop_first().contains(key)) by {
            if held.drop_first().contains(key) {
                let i = choose|i: int|
                    0 <= i < held.drop_first().len() && held.drop_first()[i] == key;
                assert(held[i + 1] == key);
            }
        }
        if held.first() == KeyId::ShiftLeft {
            lemma_shift_filter_counts(events, key);
            lemma_finalized_counts_not_held(
                without_shift_presses(events),
                held.drop_first(),
                end_offset,
                key,
            );
        } else {
            let rel = RecordedKeyEvent { key: held.first(), is_press: false, offset_ms: end_offset };
            assert(held[0] == held.first());
            lemma_counts_push(events, rel, key);
            lemma_finalized_counts_not_held(events.push(rel), held.drop_first(), end_offset, key);
        }
    }
}

/// The heart of the no-stuck-keys guarantee, stated over the finalization
/// policy: a held suppressed-role key ends with a release at `end_offset` in
/// the output and with balanced press/release counts.
proof fn lemma_finalized_balances_held_key(
    events: Seq<RecordedKeyEvent>,
    held: Seq<KeyId>,
    end_offset: u64,
    key: KeyId,
)
    requires
        held.contains(key),
        held.no_duplicates(),
        key != KeyId::ShiftLeft,
        press_count(events, key) == release_count(events, key) + 1,
    ensures
        finalized_events(events, held, end_offset).contains(
            RecordedKeyEvent { key, is_press: false, offset_ms: end_offset },
        ),
        press_count(finalized_events(events, held, end_offset), key) == release_count(
            finalized_events(events, held, end_offset),
            key,
        ),
    decreases held.len(),
{
    let rel = RecordedKeyEvent { key, is_press: false, offset_ms: end_offset };
    assert(held[0] == held.first());
    assert(held.drop_first().no_duplicates()) by {
        assert(forall|i: int, j: int|
            0 <= i < held.drop_first().len() && 0 <= j < held.drop_first().len() && i != j
                ==> #[trigger] held.drop_first()[i] != #[trigger] held.drop_first()[j]) by {
            assert(forall|i: int|
                0 <= i < held.drop_first().len() ==> #[trigger] held.drop_first()[i] == held[i
                    + 1]);
        }
    }
    if held.first() == key {
        assert(!held.drop_first().contains(key)) by {
            if held.drop_first().contains(key) {
                let i = choose|i: int|
                    0 <= i < held.drop_first().len() && held.drop_first()[i] == key;
                assert(held[i + 1] == key && held[0] == key);
            }
        }
        let pushed = events.push(rel);
        lemma_counts_push(events, rel, key);
        assert(pushed[events.len() as int] == rel);
        lemma_finalized_counts_not_held(pushed, held.drop_first(), end_offset, key);
        lemma_finalized_preserves_event(pushed, held.drop_first(), end_offset, rel);
    } else {
        let i = choose|i: int| 0 <= i < held.len() && held[i] == key;
        assert(held.drop_first()[i - 1] == key);
        assert(held.drop_first().contains(key));
        if held.first() == KeyId::ShiftLeft {
            lemma_shift_filter_counts(events, key);
            lemma_finalized_balances_held_key(
                without_shift_presses(events),
                held.drop_first(),
                end_offset,
                key,
            );
        } else {
            let other = RecordedKeyEvent {
                key: held.first(),
                is_press: false,
                offset_ms: end_offset,
            };
            lemma_counts_push(events, other, key);
            lemma_finalized_balances_held_key(
                events.push(other),
                held.drop_first(),
                end_offset,
                key,
            );
        }
    }
}

/// Copy of `events` with every press of the pass-through modifier removed,
/// as [`without_shift_presses`] describes.
fn events_without_shift_presses(events: &Vec<RecordedKeyEvent>) -> (out: Vec<RecordedKeyEvent>)
    ensures
        out@ == without_shift_presses(events@),
{
    let mut out: Vec<RecordedKeyEvent> = Vec::new();
    let mut j: usize = 0;
    while j < events.len()
        invariant
            j <= events.len(),
            out@ == without_shift_presses(events@.take(j as int)),
        decreases events.len() - j,
    {
        let e = events[j];
        proof {
            assert(events@.take(j + 1).drop_last() =~= events@.take(j as int));
            assert(events@.take(j + 1).last() == e);
        }
        if !(e.key == KeyId::ShiftLeft && e.is_press) {
            out.push(e);
        }
        j = j + 1;
    }
    proof {
        assert(events@.take(events@.len() as int) =~= events@);
    }
    out
}

/// Whether `key` is one of the movement keys that are withheld and recorded
/// while a session is open.
pub fn is_wasd_key(key: KeyId) -> (r: bool)
    ensures
        r == (key_role(key) is Suppressed),
{
    matches!(key, KeyId::KeyW | KeyId::KeyA | KeyId::KeyS | KeyId::KeyD)
}

/// Whether `key` takes part in recording at all (movement keys plus the
/// pass-through modifier, which is recorded but never withheld).
pub fn is_blocked_key(key: KeyId) -> (r: bool)
    ensures
        r == !(key_role(key) is Ignored),
{
    matches!(
        key,
        KeyId::KeyW | KeyId::KeyA | KeyId::KeyS | KeyId::KeyD | KeyId::ShiftLeft
    )
}

/// The engine state as the interception hook and the dispatch loop see it.
pub struct InterceptionEngine {
    last_auto_click_ms: u64,
    blocking: bool,
    recording_start_ms: u64,
    recorded: Vec<RecordedKeyEvent>,
    held: Vec<KeyId>,
}

impl View for InterceptionEngine {
    type V = EngineModel;

    closed spec fn view(&self) -> EngineModel {
        EngineModel {
            last_auto_click_ms: self.last_auto_click_ms,
            blocking: self.blocking,
            recording_start_ms: self.recording_start_ms,
            recorded: self.recorded@,
            held: self.held@,
        }
    }
}

impl InterceptionEngine {
    /// A fresh engine: idle, nothing recorded, no synthetic click sent yet.
    pub fn new() -> (engine: InterceptionEngine)
        ensures
            engine@ == initial_engine(),
    {
        let engine = InterceptionEngine {
            last_auto_click_ms: 0,
            blocking: false,
            recording_start_ms: 0,
            recorded: Vec::new(),
            held: Vec::new(),
        };
        proof {
            assert(engine@ =~= initial_engine());
        }
        engine
    }

    /// Whether a recording session is open and keys are being intercepted.
    pub fn is_blocking_keys(&self) -> (blocking: bool)
        ensures
            blocking == self@.blocking,
    {
        self.blocking
    }

    /// Whether an event at `now_ms` falls in the echo window of the last
    /// synthetic click and must not be treated as a fresh gesture.
    pub fn should_ignore_event(&self, now_ms: u64) -> (ignore: bool)
        ensures
            ignore == in_echo_window(self@, now_ms),
    {
        if self.last_auto_click_ms == 0 {
            return false;
        }
        let elapsed = if now_ms >= self.last_auto_click_ms {
            now_ms - self.last_auto_click_ms
        } else {
            0
        };
        elapsed < MIN_CLICK_INTERVAL_MS
    }

    /// Note that a synthetic click was just sent: arm the echo guard and stop
    /// intercepting keys.
    pub fn mark_auto_click_sent(&mut self, now_ms: u64)
        ensures
            final(self)@ == click_marked(old(self)@, now_ms),
    {
        self.last_auto_click_ms = now_ms;
        self.blocking = false;
        proof {
            assert(self@ =~= click_marked(old(self)@, now_ms));
        }
    }

    /// Open a recording session at `now_ms`: start intercepting and clear the
    /// buffers.  A no-op while a session is already open, so that a
    /// retriggered gesture cannot wipe a recording that was not harvested yet.
    pub fn start_blocking_and_recording(&mut self, now_ms: u64)
        ensures
            final(self)@ == session_started(old(self)@, now_ms),
    {
        if self.blocking {
            return;
        }
        self.recorded.clear();
        self.held.clear();
        self.recording_start_ms = now_ms;
        self.blocking = true;
        proof {
            assert(self@ =~= session_started(old(self)@, now_ms));
        }
    }

    /// Append one key transition to the recording with its offset from the
    /// session start, and keep the held-key tracker consistent with it.
    pub fn record_key_event(&mut self, key: KeyId, is_press: bool, now_ms: u64)
        ensures
            final(self)@ == key_recorded(old(self)@, key, is_press, now_ms),
    {
        let offset_ms = if now_ms >= self.recording_start_ms {
            now_ms - self.recording_start_ms
        } else {
            0
        };
        if is_press {
            if !self.holds_key(key) {
                self.held.push(key);
            }
        } else {
            let remaining = filtered_keys(&self.held, key);
            self.held = remaining;
        }
        self.recorded.push(RecordedKeyEvent { key, is_press, offset_ms });
        proof {
            assert(self@ =~= key_recorded(old(self)@, key, is_press, now_ms));
        }
    }

    /// Whether `key` is tracked as currently held down.
    fn holds_key(&self, key: KeyId) -> (r: bool)
        ensures
            r == self@.held.contains(key),
    {
        let mut j: usize = 0;
        while j < self.held.len()
            invariant
                j <= self.held.len(),
                forall|i: int| 0 <= i < j ==> self@.held[i] != key,
            decreases self.held.len() - j,
        {
            if self.held[j] == key {
                return true;
            }
            j = j + 1;
        }
        false
    }

    /// Harvest the session for replay: drain the recording, resolve every
    /// still-held key per the finalization policy ([`finalized_events`]), and
    /// return the sequence to replay.  The session phase and the echo guard
    /// are left untouched; the caller decides when to mark the click.
    pub fn get_recording(&mut self, now_ms: u64) -> (events: Vec<RecordedKeyEvent>)
        ensures
            events@ == harvested_sequence(old(self)@, now_ms),
            final(self)@ == session_harvested(old(self)@),
    {
        let ghost m0 = self@;
        let end_offset = if now_ms >= self.recording_start_ms {
            now_ms - self.recording_start_ms
        } else {
            0
        };
        let mut events = self.recorded.split_off(0);
        proof {
            assert(self.recorded@ =~= Seq::<RecordedKeyEvent>::empty());
            assert(events@ =~= m0.recorded);
            assert(m0.held.skip(0) =~= m0.held);
        }
        let mut j: usize = 0;
        while j < self.held.len()
            invariant
                j <= self.held.len(),
                self@.held == m0.held,
                self@.recorded == Seq::<RecordedKeyEvent>::empty(),
                self@.blocking == m0.blocking,
                self@.last_auto_click_ms == m0.last_auto_click_ms,
                self@.recording_start_ms == m0.recording_start_ms,
                end_offset == offset_from(m0.recording_start_ms, now_ms),
                finalized_events(events@, m0.held.skip(j as int), end_offset)
                    == finalized_events(m0.recorded, m0.held, end_offset),
            decreases self.held.len() - j,
        {
            let k = self.held[j];
            proof {
                assert(m0.held.skip(j as int).first() == k);
                assert(m0.held.skip(j as int).drop_first() =~= m0.held.skip(j + 1));
            }
            if k == KeyId::ShiftLeft {
                let kept = events_without_shift_presses(&events);
                events = kept;
            } else {
                events.push(RecordedKeyEvent { key: k, is_press: false, offset_ms: end_offset });
            }
            j = j + 1;
        }
        proof {
            assert(m0.held.skip(m0.held.len() as int) =~= Seq::<KeyId>::empty());
        }
        self.held.clear();
        proof {
            assert(self@ =~= session_harvested(m0));
        }
        events
    }

    /// Classify one raw input event, exactly as [`classified`] describes,
    /// updating the session state and returning the delivery decision.  This
    /// is the synchronous heart of the interception hook: the caller applies
    /// `decision` to the platform's delivery API and forwards `trigger_fired`
    /// to the dispatch loop.
    pub fn handle_event(&mut self, event: InputEvent, focused: bool, now_ms: u64) -> (outcome:
        EventOutcome)
        ensures
            final(self)@ == classified(old(self)@, event, focused, now_ms).0,
            outcome == classified(old(self)@, event, focused, now_ms).1,
    {
        match event {
            InputEvent::ButtonPress(b) => {
                if b == ButtonId::Right && !self.should_ignore_event(now_ms) && focused {
                    self.start_blocking_and_recording(now_ms);
                }
                EventOutcome { decision: Decision::PassThrough, trigger_fired: false }
            },
            InputEvent::ButtonRelease(b) => {
                let fired = b == ButtonId::Right && !self.should_ignore_event(now_ms) && focused;
                EventOutcome { decision: Decision::PassThrough, trigger_fired: fired }
            },
            InputEvent::KeyPress(k) => self.handle_key(k, true, focused, now_ms),
            InputEvent::KeyRelease(k) => self.handle_key(k, false, focused, now_ms),
        }
    }

    /// Classify one key transition, as [`classified_key`] describes.
    fn handle_key(&mut self, key: KeyId, is_press: bool, focused: bool, now_ms: u64) -> (outcome:
        EventOutcome)
        ensures
            final(self)@ == classified_key(old(self)@, key, is_press, focused, now_ms).0,
            outcome == classified_key(old(self)@, key, is_press, focused, now_ms).1,
    {
        if self.is_blocking_keys() && focused && !is_wasd_key(key) && is_blocked_key(key) {
            self.record_key_event(key, is_press, now_ms);
            EventOutcome { decision: Decision::PassThrough, trigger_fired: false }
        } else if self.is_blocking_keys() && focused && is_wasd_key(key) {
            self.record_key_event(key, is_press, now_ms);
            EventOutcome { decision: Decision::Suppress, trigger_fired: false }
        } else {
            EventOutcome { decision: Decision::PassThrough, trigger_fired: false }
        }
    }

    /// Resolve a fired trigger, exactly as the dispatch loop must: when the
    /// target was focused and the synthetic click went out, harvest the
    /// recording *before* arming the echo guard (arming first would let a new
    /// gesture wipe the unharvested buffer), and return the sequence to
    /// replay; otherwise discard the session and return nothing.
    pub fn resolve_trigger(&mut self, focused: bool, injected: bool, now_ms: u64) -> (events: Vec<
        RecordedKeyEvent,
    >)
        ensures
            focused && injected ==> events@ == harvested_sequence(old(self)@, now_ms)
                && final(self)@ == click_marked(session_harvested(old(self)@), now_ms),
            !(focused && injected) ==> events@ == Seq::<RecordedKeyEvent>::empty()
                && final(self)@ == session_discarded(old(self)@),
    {
        if focused && injected {
            let events = self.get_recording(now_ms);
            self.mark_auto_click_sent(now_ms);
            proof {
                assert(self@ =~= click_marked(session_harvested(old(self)@), now_ms));
            }
            events
        } else {
            self.stop_blocking_keys();
            let events: Vec<RecordedKeyEvent> = Vec::new();
            proof {
                assert(events@ =~= Seq::<RecordedKeyEvent>::empty());
            }
            events
        }
    }

    /// Discard the session: stop intercepting and drop the recording, without
    /// producing a replay sequence.  Used when the injection fails or the
    /// target window lost focus.
    pub fn stop_blocking_keys(&mut self)
        ensures
            final(self)@ == session_discarded(old(self)@),
    {
        self.blocking = false;
        self.recorded.clear();
        self.held.clear();
        proof {
            assert(self@ =~= session_discarded(old(self)@));
        }
    }
}

/// Appending a key that is not yet in the set keeps it duplicate-free.
proof fn lemma_no_duplicates_push(s: Seq<KeyId>, x: KeyId)
    requires
        s.no_duplicates(),
        !s.contains(x),
    ensures
        s.push(x).no_duplicates(),
{
    assert forall|i: int, j: int|
        0 <= i < s.push(x).len() && 0 <= j < s.push(x).len() && i != j implies s.push(x)[i]
        != s.push(x)[j] by {
        if i < s.len() && j < s.len() {
        } else if j == s.len() {
            assert(s.push(x)[i] == s[i]);
            if s[i] == x {
                assert(s.contains(x));
            }
        } else {
            assert(s.push(x)[j] == s[j]);
            if s[j] == x {
                assert(s.contains(x));
            }
        }
    }
}

/// Removing a key from a duplicate-free set leaves it duplicate-free.
proof fn lemma_keys_without_no_duplicates(held: Seq<KeyId>, key: KeyId)
    requires
        held.no_duplicates(),
    ensures
        keys_without(held, key).no_duplicates(),
    decreases held.len(),
{
    if held.len() != 0 {
        assert(held.drop_last().no_duplicates()) by {
            assert forall|i: int, j: int|
                0 <= i < held.drop_last().len() && 0 <= j < held.drop_last().len() && i
                    != j implies held.drop_last()[i] != held.drop_last()[j] by {
                assert(held.drop_last()[i] == held[i]);
                assert(held.drop_last()[j] == held[j]);
            }
        }
        lemma_keys_without_no_duplicates(held.drop_last(), key);
        if held.last() != key {
            let rest = keys_without(held.drop_last(), key);
            assert(!rest.contains(held.last())) by {
                if rest.contains(held.last()) {
                    lemma_keys_without_is_subset(held.drop_last(), key, held.last());
                    let i = choose|i: int|
                        0 <= i < held.drop_last().len() && held.drop_last()[i] == held.last();
                    assert(held[i] == held.last());
                    assert(held[held.len() - 1] == held.last());
                }
            }
            lemma_no_duplicates_push(rest, held.last());
        }
    }
}

/// A key surviving the removal was in the set to begin with.
proof fn lemma_keys_without_is_subset(held: Seq<KeyId>, key: KeyId, x: KeyId)
    requires
        keys_without(held, key).contains(x),
    ensures
        held.contains(x),
    decreases held.len(),
{
    broadcast use vstd::seq_lib::lemma_seq_contains_after_push;

    if held.len() != 0 {
        let rest = keys_without(held.drop_last(), key);
        if held.last() == key || x != held.last() {
            lemma_keys_without_is_subset(held.drop_last(), key, x);
            let i = choose|i: int| 0 <= i < held.drop_last().len() && held.drop_last()[i] == x;
            assert(held[i] == x);
        } else {
            assert(held[held.len() - 1] == x);
        }
    }
}

/// Law: held-set integrity.  The classifier preserves duplicate-freedom of
/// the held-key tracker, whatever the event: a press adds the key only when
/// it is absent, a release removes it, and nothing else touches the set.
pub proof fn lemma_held_no_duplicates_preserved(
    m: EngineModel,
    event: InputEvent,
    focused: bool,
    now_ms: u64,
)
    requires
        m.held.no_duplicates(),
    ensures
        classified(m, event, focused, now_ms).0.held.no_duplicates(),
{
    match event {
        InputEvent::KeyPress(k) => {
            if m.blocking && focused && !(key_role(k) is Ignored) && !m.held.contains(k) {
                lemma_no_duplicates_push(m.held, k);
            }
        },
        InputEvent::KeyRelease(k) => {
            if m.blocking && focused && !(key_role(k) is Ignored) {
                lemma_keys_without_no_duplicates(m.held, k);
            }
        },
        _ => {},
    }
}

/// Whether `event` is a press or a release of the right button.
pub open spec fn is_right_click(event: InputEvent) -> bool {
    event == InputEvent::ButtonPress(ButtonId::Right) || event == InputEvent::ButtonRelease(
        ButtonId::Right,
    )
}

/// Law: echo suppression.  Any right-button event observed inside the echo
/// window of the last synthetic click (sent at `t`) leaves the engine state
/// unchanged — in particular it starts no session — is passed through to the
/// host, and fires no trigger.
pub proof fn lemma_echo_suppression(
    m: EngineModel,
    event: InputEvent,
    focused: bool,
    t: u64,
    now_ms: u64,
)
    requires
        m.last_auto_click_ms == t,
        t != 0,
        t <= now_ms < t + MIN_CLICK_INTERVAL_MS,
        is_right_click(event),
    ensures
        classified(m, event, focused, now_ms).0 == m,
        classified(m, event, focused, now_ms).1 == pass_outcome(),
{
}

/// Law: idempotent session start.  When a right press opened (or found open)
/// a session, a second right press with no harvest or discard in between
/// changes nothing: the buffer and the held set after the second press are
/// those after the first.
pub proof fn lemma_idempotent_session_start(
    m: EngineModel,
    focused1: bool,
    t1: u64,
    focused2: bool,
    t2: u64,
)
    requires
        classified(m, InputEvent::ButtonPress(ButtonId::Right), focused1, t1).0.blocking,
    ensures
        classified(
            classified(m, InputEvent::ButtonPress(ButtonId::Right), focused1, t1).0,
            InputEvent::ButtonPress(ButtonId::Right),
            focused2,
            t2,
        ).0 == classified(m, InputEvent::ButtonPress(ButtonId::Right), focused1, t1).0,
{
}

/// Law: focus gating.  While the target window is not focused, no event of
/// any kind changes the engine state — no session starts, nothing is
/// recorded — every event passes through, and no trigger fires.
pub proof fn lemma_focus_gating(m: EngineModel, event: InputEvent, now_ms: u64)
    ensures
        classified(m, event, false, now_ms).0 == m,
        classified(m, event, false, now_ms).1 == pass_outcome(),
{
}

/// Law: no stuck keys.  Harvest a session while a suppressed-role key is
/// held (its recorded presses outnumbering its releases by the one unmatched
/// press, the held set free of duplicates as the engine keeps it): the output
/// contains a release of that key at the finalize offset, and its press and
/// release counts in the output are equal.
pub proof fn lemma_no_stuck_keys(m: EngineModel, key: KeyId, now_ms: u64)
    requires
        m.held.contains(key),
        m.held.no_duplicates(),
        key_role(key) is Suppressed,
        press_count(m.recorded, key) == release_count(m.recorded, key) + 1,
    ensures
        harvested_sequence(m, now_ms).contains(
            RecordedKeyEvent {
                key,
                is_press: false,
                offset_ms: offset_from(m.recording_start_ms, now_ms),
            },
        ),
        press_count(harvested_sequence(m, now_ms), key) == release_count(
            harvested_sequence(m, now_ms),
            key,
        ),
{
    lemma_finalized_balances_held_key(
        m.recorded,
        m.held,
        offset_from(m.recording_start_ms, now_ms),
        key,
    );
}

/// Law: pass-through-key suppression on hold.  Harvest a session while the
/// pass-through modifier is held: no press of it appears in the output, while
/// every other recorded transition — in particular both halves of any
/// completed press/release pair of the modifier — survives.
pub proof fn lemma_passthrough_hold_suppressed(m: EngineModel, now_ms: u64)
    requires
        m.held.contains(KeyId::ShiftLeft),
    ensures
        no_shift_press_in(harvested_sequence(m, now_ms)),
        forall|e: RecordedKeyEvent|
            #[trigger] m.recorded.contains(e) && !is_shift_press(e) ==> harvested_sequence(
                m,
                now_ms,
            ).contains(e),
{
    let end_offset = offset_from(m.recording_start_ms, now_ms);
    lemma_finalized_no_shift_press(m.recorded, m.held, end_offset);
    assert forall|e: RecordedKeyEvent|
        #[trigger] m.recorded.contains(e) && !is_shift_press(e) implies harvested_sequence(
        m,
        now_ms,
    ).contains(e) by {
        lemma_finalized_preserves_event(m.recorded, m.held, end_offset, e);
    }
}

} // verus!
