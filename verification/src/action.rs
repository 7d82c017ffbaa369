//! Actions and their scheduling metadata.
//!
//! An [`Action`] is one timed unit of work: mutate one property of one target
//! object from a begin value to an end value. An [`ActionMeta`] carries the
//! scheduling data for an action placed inside a sequence: where its time
//! window sits, how long it is, and which easing curve shapes its progress.
//! Identifiers are plain indices into host-owned stores; the engine never
//! owns the objects it animates and a failed lookup is silently skipped.

use vstd::prelude::*;

use crate::ease::EaseKind;
use crate::ease::Progress;
use crate::lerp::lanes_ok;

verus! {

/// How an action's interpolation result is written back.
#[derive(Clone, Copy, PartialEq, Eq, Structural, Debug)]
pub enum Interp {
    /// Write the interpolated lanes into the target object's own property.
    Property,
    /// The target object's property holds a handle (its first lane) into the
    /// shared resource table; write the interpolated lanes into that entry.
    Resource,
}

/// One timed property transition: drive the property of the object named by
/// `target` from `begin` to `end`. Begin and end are captured when the action
/// is created and never change afterwards; the scheduler only reads them.
#[derive(Clone, Debug)]
pub struct Action {
    /// Index of the target object in the host's object store.
    pub target: usize,
    /// Property value at progress `0`.
    pub begin: Vec<i64>,
    /// Property value at progress `1`.
    pub end: Vec<i64>,
    /// Where the interpolated value is written.
    pub interp: Interp,
}

impl Action {
    /// Begin and end describe the same property: equal lane counts, every
    /// lane inside the representable fixed-point range.
    pub open spec fn wf(self) -> bool {
        &&& self.begin@.len() == self.end@.len()
        &&& lanes_ok(self.begin@)
        &&& lanes_ok(self.end@)
    }

    /// Capture one property transition. Pure: no side effect beyond the
    /// allocation of the action itself.
    pub fn new(target: usize, begin: Vec<i64>, end: Vec<i64>, interp: Interp) -> (a: Action)
        requires
            begin@.len() == end@.len(),
            lanes_ok(begin@),
            lanes_ok(end@),
        ensures
            a == (Action { target, begin, end, interp }),
            a.wf(),
    {
        Action { target, begin, end, interp }
    }
}

/// Scheduling metadata for one action inside a sequence: which action it is,
/// where its window starts, how long it lasts, and its easing curve.
#[derive(Clone, Copy, PartialEq, Eq, Structural, Debug)]
pub struct ActionMeta {
    /// Index of the action in the host's action store.
    pub action_id: usize,
    /// Absolute start offset of the window, in ticks of the owning sequence.
    pub start_time: u64,
    /// Window length in ticks; `0` is an instantaneous snap to begin.
    pub duration: u32,
    /// Easing applied to normalized progress before interpolation.
    pub ease_fn: EaseKind,
}

impl ActionMeta {
    /// The window's end still lies inside the tick range.
    pub open spec fn fits(self) -> bool {
        self.start_time + self.duration <= u64::MAX
    }

    /// Absolute end of the window, as a mathematical integer.
    pub open spec fn end_time_spec(self) -> int {
        self.start_time + self.duration
    }

    /// Fresh metadata for one action: the window starts at the sequence
    /// origin with linear easing; combinators shift the start when sequences
    /// are composed, and a whole-sequence re-ease overrides the curve.
    pub fn new(action_id: usize, duration: u32) -> (m: ActionMeta)
        ensures
            m == (ActionMeta {
                action_id,
                start_time: 0,
                duration,
                ease_fn: EaseKind::Linear,
            }),
            m.fits(),
    {
        ActionMeta { action_id, start_time: 0, duration, ease_fn: EaseKind::Linear }
    }

    /// Absolute end of the window.
    pub fn end_time(&self) -> (t: u64)
        requires
            self.fits(),
        ensures
            t == self.end_time_spec(),
    {
        self.start_time + (self.duration as u64)
    }

    /// Normalized progress of this action when the timeline sits at
    /// `target`: the fraction `(target - start_time) / duration` clamped to
    /// `[0, 1]`, and exactly `0` for a zero-length window.
    pub open spec fn progress_spec(self, target: u64) -> Progress {
        if self.duration == 0 {
            Progress { num: 0, den: 1 }
        } else if target <= self.start_time {
            Progress { num: 0, den: self.duration as u64 }
        } else if target - self.start_time >= self.duration {
            Progress { num: self.duration as u64, den: self.duration as u64 }
        } else {
            Progress { num: (target - self.start_time) as u64, den: self.duration as u64 }
        }
    }

    /// Compute the clamped normalized progress at `target`.
    pub fn progress_at(&self, target: u64) -> (p: Progress)
        ensures
            p == self.progress_spec(target),
            p.wf(),
            p.den <= u32::MAX,
    {
        if self.duration == 0 {
            Progress { num: 0, den: 1 }
        } else if target <= self.start_time {
            Progress { num: 0, den: self.duration as u64 }
        } else {
            let gone: u64 = target - self.start_time;
            if gone >= self.duration as u64 {
                Progress { num: self.duration as u64, den: self.duration as u64 }
            } else {
                Progress { num: gone, den: self.duration as u64 }
            }
        }
    }

    /// Eased progress at `target`: the fraction handed to interpolation.
    pub fn eased_progress_at(&self, target: u64) -> (p: Progress)
        ensures
            p == self.ease_fn.ease_spec(self.progress_spec(target)),
            p.wf(),
    {
        self.ease_fn.apply(self.progress_at(target))
    }
}

/// A zero-length window snaps to its begin value: whatever the timeline
/// position and the easing curve, its eased progress is exactly `0`, so
/// interpolation returns `begin` and no degenerate division ever happens.
pub proof fn lemma_zero_duration_snaps(m: ActionMeta, target: u64)
    requires
        m.duration == 0,
    ensures
        m.progress_spec(target) == (Progress { num: 0, den: 1 }),
        m.ease_fn.ease_spec(m.progress_spec(target)).is_zero(),
{
    crate::ease::lemma_ease_zero(m.ease_fn, m.progress_spec(target));
}

} // verus!
