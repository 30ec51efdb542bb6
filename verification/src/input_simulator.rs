//! Replay scheduling: turning a finalized recording into the exact sequence
//! of delta-timed injection commands the virtual input device must execute.
//!
//! Replay is faithful to the captured timeline: strictly the recorded order,
//! no reordering, deduplication or coalescing, and each wait is the
//! difference between consecutive offsets (not an absolute delay), so drift
//! does not accumulate.  Keys the virtual device cannot express are skipped,
//! but still consume their share of the waiting, exactly as the recording
//! demands.

use vstd::prelude::*;

use crate::input_listener::{KeyId, RecordedKeyEvent};

verus! {

/// One replay command: wait `delay_ms`, then — when the key maps to a device
/// code — press or release that code.  A step with no code only waits.
#[derive(Clone, Copy, Debug, PartialEq, Eq)]
pub struct ReplayStep {
    /// Milliseconds to wait after the previous step before acting.
    pub delay_ms: u64,
    /// The device key code to inject, `None` for a key the device cannot
    /// express (the step is then only a timed skip).
    pub code: Option<u32>,
    /// Whether to press (`true`) or release (`false`) the key.
    pub is_press: bool,
}

/// The device key code for each key the engine records (Linux event-device
/// codes), `None` for keys outside the recorded set.
pub open spec fn key_code(key: KeyId) -> Option<u32> {
    match key {
        KeyId::KeyW => Some(17u32),
        KeyId::KeyA => Some(30u32),
        KeyId::KeyS => Some(31u32),
        KeyId::KeyD => Some(32u32),
        KeyId::ShiftLeft => Some(42u32),
        KeyId::Other => None,
    }
}

/// The replay command for one recorded event, given the offset of the event
/// replayed just before it: the wait is the offset difference, floored at
/// zero.
pub open spec fn step_for(prev_offset_ms: u64, e: RecordedKeyEvent) -> ReplayStep {
    ReplayStep {
        delay_ms: if e.offset_ms > prev_offset_ms {
            (e.offset_ms - prev_offset_ms) as u64
        } else {
            0
        },
        code: key_code(e.key),
        is_press: e.is_press,
    }
}

/// The offset that precedes the last event of `events`: the offset of the
/// next-to-last event, or zero at the start of the replay.
pub open spec fn prev_offset_of(events: Seq<RecordedKeyEvent>) -> u64 {
    if events.len() <= 1 {
        0u64
    } else {
        events[events.len() - 2].offset_ms
    }
}

/// The full replay schedule for a finalized recording: one step per event,
/// in recorded order, each waiting out the gap to its predecessor.
pub open spec fn plan_of(events: Seq<RecordedKeyEvent>) -> Seq<ReplayStep>
    decreases events.len(),
{
    if events.len() == 0 {
        Seq::empty()
    } else {
        plan_of(events.drop_last()).push(step_for(prev_offset_of(events), events.last()))
    }
}

/// The device key code for `key`, as [`key_code`] lists them.
pub fn key_to_code(key: KeyId) -> (code: Option<u32>)
    ensures
        code == key_code(key),
{
    match key {
        KeyId::KeyW => Some(17),
        KeyId::KeyA => Some(30),
        KeyId::KeyS => Some(31),
        KeyId::KeyD => Some(32),
        KeyId::ShiftLeft => Some(42),
        KeyId::Other => None,
    }
}

/// Compute the replay schedule for a finalized recording, as [`plan_of`]
/// describes: one step per event in recorded order, with `delay_ms` the gap
/// to the previous event (zero for the first event and whenever offsets do
/// not increase), and the device code of the event's key.  An empty
/// recording yields an empty schedule (no work is performed).
pub fn replay_plan(events: &Vec<RecordedKeyEvent>) -> (plan: Vec<ReplayStep>)
    ensures
        plan@ == plan_of(events@),
        plan@.len() == events@.len(),
        forall|i: int|
            0 <= i < events@.len() ==> #[trigger] plan@[i] == step_for(
                if i == 0 {
                    0u64
                } else {
                    events@[i - 1].offset_ms
                },
                events@[i],
            ),
{
    let mut plan: Vec<ReplayStep> = Vec::new();
    let mut last_offset: u64 = 0;
    let mut j: usize = 0;
    while j < events.len()
        invariant
            j <= events.len(),
            last_offset == (if j == 0 {
                0u64
            } else {
                events@[j - 1].offset_ms
            }),
            plan@ == plan_of(events@.take(j as int)),
            plan@.len() == j,
            forall|i: int|
                0 <= i < j ==> #[trigger] plan@[i] == step_for(
                    if i == 0 {
                        0u64
                    } else {
                        events@[i - 1].offset_ms
                    },
                    events@[i],
                ),
        decreases events.len() - j,
    {
        let e = events[j];
        let delay_ms = if e.offset_ms > last_offset {
            e.offset_ms - last_offset
        } else {
            0
        };
        let code = key_to_code(e.key);
        proof {
            assert(events@.take(j + 1).drop_last() =~= events@.take(j as int));
            assert(events@.take(j + 1).last() == e);
            assert(prev_offset_of(events@.take(j + 1)) == last_offset);
        }
        plan.push(ReplayStep { delay_ms, code, is_press: e.is_press });
        last_offset = e.offset_ms;
        j = j + 1;
    }
    proof {
        assert(events@.take(events@.len() as int) =~= events@);
    }
    plan
}

} // verus!
