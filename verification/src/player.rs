//! The per-frame scheduler: playing sequences against host-owned stores.
//!
//! The host keeps every animated object and every action in index-addressed
//! stores; this module models them as plain vectors of optional entries, the
//! arena-and-index shape the engine really uses. A scheduler pass reconciles
//! a timeline's playback state, selects the actions whose windows overlap
//! the scrubbed range, computes each one's eased progress, interpolates and
//! writes the result back — to the object's own property, or through a
//! handle into the shared resource table. Every lookup is fallible and a
//! miss is silently skipped: an object deleted mid-flight is not an error.
//!
//! The effect of a pass is specified exactly, as a fold of single-action
//! evaluation steps in timeline direction order.

use vstd::prelude::*;

use crate::action::Action;
use crate::action::ActionMeta;
use crate::action::Interp;
use crate::ease::Progress;
use crate::lerp::lerp_lanes;
use crate::lerp::lerp_lanes_spec;
use crate::sequence::Sequence;
use crate::sequence::SequenceBundle;
use crate::sequence::SequenceTime;

verus! {

/// One animated object as the host stores it: the property under animation,
/// as fixed-point lanes, and a rebuild flag raised whenever the property is
/// rewritten so the drawing side knows to rebuild the object's geometry.
#[derive(Clone, Debug)]
pub struct Object {
    /// The animated property value.
    pub value: Vec<i64>,
    /// Raised by every property write; cleared by [`vector_builder`].
    pub should_build: bool,
}

/// Spec-level snapshot of one object.
#[verifier::ext_equal]
pub struct ObjectView {
    pub value: Seq<i64>,
    pub should_build: bool,
}

impl View for Object {
    type V = ObjectView;

    open spec fn view(&self) -> ObjectView {
        ObjectView { value: self.value@, should_build: self.should_build }
    }
}

impl Object {
    /// Whether the object's geometry needs rebuilding.
    pub fn should_build(&self) -> (r: bool)
        ensures
            r == self.should_build,
    {
        self.should_build
    }

    /// Raise or lower the rebuild flag.
    pub fn set_should_build(&mut self, should_build: bool)
        ensures
            *final(self) == (Object { value: old(self).value, should_build }),
    {
        self.should_build = should_build;
    }
}

/// Spec-level snapshot of everything one scheduler pass may write: the
/// object store and the shared resource table.
#[verifier::ext_equal]
pub struct StageView {
    pub objects: Seq<Option<ObjectView>>,
    pub resources: Seq<Seq<i64>>,
}

/// The object store as the scheduler's specification sees it.
pub open spec fn objects_view(s: Seq<Option<Object>>) -> Seq<Option<ObjectView>> {
    s.map_values(
        |o: Option<Object>|
            match o {
                Option::Some(x) => Option::Some(x@),
                Option::None => Option::None,
            },
    )
}

/// The resource table as the scheduler's specification sees it.
pub open spec fn resources_view(s: Seq<Vec<i64>>) -> Seq<Seq<i64>> {
    s.map_values(|r: Vec<i64>| r@)
}

/// Snapshot of both stores together.
pub open spec fn stage_of(objects: Seq<Option<Object>>, resources: Seq<Vec<i64>>) -> StageView {
    StageView { objects: objects_view(objects), resources: resources_view(resources) }
}

/// Whether two closed time ranges overlap.
pub open spec fn time_range_overlap_spec(a_begin: int, a_end: int, b_begin: int, b_end: int) -> bool {
    a_begin <= b_end && b_begin <= a_end
}

/// Decide whether two closed time ranges overlap.
pub fn time_range_overlap(a_begin: u64, a_end: u64, b_begin: u64, b_end: u64) -> (r: bool)
    ensures
        r == time_range_overlap_spec(a_begin as int, a_end as int, b_begin as int, b_end as int),
{
    a_begin <= b_end && b_begin <= a_end
}

/// Effect of one action interpolated at eased progress `p`: the target
/// object's property (or the resource entry its handle names) is replaced by
/// the lane-wise interpolation of the action's begin and end values. A
/// missing target, a missing resource or an empty handle lane skips silently.
pub open spec fn apply_action_spec(st: StageView, action: Action, p: Progress) -> StageView {
    if 0 <= action.target < st.objects.len() {
        match st.objects[action.target as int] {
            Option::Some(obj) => match action.interp {
                Interp::Property => StageView {
                    objects: st.objects.update(
                        action.target as int,
                        Option::Some(
                            ObjectView {
                                value: lerp_lanes_spec(action.begin@, action.end@, p),
                                should_build: true,
                            },
                        ),
                    ),
                    ..st
                },
                Interp::Resource => {
                    if obj.value.len() >= 1 && 0 <= obj.value[0] < st.resources.len() {
                        StageView {
                            resources: st.resources.update(
                                obj.value[0] as int,
                                lerp_lanes_spec(action.begin@, action.end@, p),
                            ),
                            ..st
                        }
                    } else {
                        st
                    }
                },
            },
            Option::None => st,
        }
    } else {
        st
    }
}

/// Interpolate one action at eased progress `p` and write the result back.
fn apply_action(
    objects: &mut Vec<Option<Object>>,
    resources: &mut Vec<Vec<i64>>,
    action: &Action,
    p: Progress,
)
    requires
        action.wf(),
        p.wf(),
    ensures
        stage_of(final(objects)@, final(resources)@) == apply_action_spec(
            stage_of(old(objects)@, old(resources)@),
            *action,
            p,
        ),
        final(objects)@.len() == old(objects)@.len(),
        final(resources)@.len() == old(resources)@.len(),
{
    let ghost st0: StageView = stage_of(objects@, resources@);
    let t: usize = action.target;
    if t < objects.len() {
        match action.interp {
            Interp::Property => {
                if objects[t].is_some() {
                    let lanes: Vec<i64> = lerp_lanes(&action.begin, &action.end, p);
                    objects.set(t, Option::Some(Object { value: lanes, should_build: true }));
                    proof {
                        assert(objects_view(objects@) =~= apply_action_spec(st0, *action, p).objects);
                        assert(stage_of(objects@, resources@) =~= apply_action_spec(
                            st0,
                            *action,
                            p,
                        ));
                    }
                }
            },
            Interp::Resource => {
                match &objects[t] {
                    Option::Some(obj) => {
                        if obj.value.len() >= 1 {
                            let h: i64 = obj.value[0];
                            if 0 <= h {
                                let hu: u64 = h as u64;
                                if hu < resources.len() as u64 {
                                    let lanes: Vec<i64> = lerp_lanes(&action.begin, &action.end, p);
                                    resources.set(hu as usize, lanes);
                                    proof {
                                        assert(resources_view(resources@) =~= apply_action_spec(
                                            st0,
                                            *action,
                                            p,
                                        ).resources);
                                        assert(stage_of(objects@, resources@) =~= apply_action_spec(
                                            st0,
                                            *action,
                                            p,
                                        ));
                                    }
                                }
                            }
                        }
                    },
                    Option::None => {},
                }
            },
        }
    }
    proof {
        assert(stage_of(objects@, resources@) =~= apply_action_spec(st0, *action, p));
    }
}

/// The action store holds a well-formed action wherever it holds one.
pub open spec fn actions_ok(actions: Seq<Option<Action>>) -> bool {
    forall|i: int|
        0 <= i < actions.len() && (#[trigger] actions[i]) is Some ==> actions[i].unwrap().wf()
}

/// One evaluation step of a pass: if `meta`'s window overlaps the scrubbed
/// range and both the action and its target resolve, interpolate at the
/// eased progress for `target`; otherwise leave the stage untouched.
pub open spec fn eval_meta_spec(
    st: StageView,
    actions: Seq<Option<Action>>,
    meta: ActionMeta,
    window_lo: u64,
    window_hi: u64,
    target: u64,
) -> StageView {
    if time_range_overlap_spec(
        meta.start_time as int,
        meta.end_time_spec(),
        window_lo as int,
        window_hi as int,
    ) {
        if 0 <= meta.action_id < actions.len() && actions[meta.action_id as int] is Some {
            apply_action_spec(
                st,
                actions[meta.action_id as int].unwrap(),
                meta.ease_fn.ease_spec(meta.progress_spec(target)),
            )
        } else {
            st
        }
    } else {
        st
    }
}

/// Position of the `j`-th entry evaluated by a pass over `n` entries:
/// scrubbing forward walks the entries first to last, scrubbing backward
/// walks them last to first. Direction changes only the order, never the
/// selection, and the order matters only when several actions touch the
/// same object within one pass.
pub open spec fn pass_index(n: int, forward: bool, j: int) -> int {
    if forward {
        j
    } else {
        n - 1 - j
    }
}

/// Stage after the first `k` evaluation steps of a pass.
pub open spec fn play_upto(
    st: StageView,
    actions: Seq<Option<Action>>,
    metas: Seq<ActionMeta>,
    window_lo: u64,
    window_hi: u64,
    target: u64,
    forward: bool,
    k: int,
) -> StageView
    decreases k,
{
    if k <= 0 {
        st
    } else {
        eval_meta_spec(
            play_upto(st, actions, metas, window_lo, window_hi, target, forward, k - 1),
            actions,
            metas[pass_index(metas.len() as int, forward, k - 1)],
            window_lo,
            window_hi,
            target,
        )
    }
}

/// Stage after one whole scheduler pass of `sequence` scrubbed from `curr`
/// to `target`: a no-op when the timeline has not moved or the sequence is
/// empty, otherwise every entry evaluated once, in direction order, against
/// the window `[min(curr, target), max(curr, target)]`.
pub open spec fn play_spec(
    st: StageView,
    actions: Seq<Option<Action>>,
    sequence: Sequence,
    curr: u64,
    target: u64,
) -> StageView {
    if curr == target || sequence.action_metas@.len() == 0 {
        st
    } else {
        let window_lo = if curr <= target {
            curr
        } else {
            target
        };
        let window_hi = if curr <= target {
            target
        } else {
            curr
        };
        play_upto(
            st,
            actions,
            sequence.action_metas@,
            window_lo,
            window_hi,
            target,
            target > curr,
            sequence.action_metas@.len() as int,
        )
    }
}

/// One scheduler pass: play `sequence` from the timeline's current position
/// toward its target position, touching exactly the actions whose windows
/// overlap the scrubbed range. The playback state itself is not changed
/// here; [`sequence_time_update_system`] reconciles it.
pub fn play_sequence(
    objects: &mut Vec<Option<Object>>,
    actions: &Vec<Option<Action>>,
    resources: &mut Vec<Vec<i64>>,
    sequence: &Sequence,
    sequence_time: &SequenceTime,
)
    requires
        sequence.wf(),
        actions_ok(actions@),
    ensures
        stage_of(final(objects)@, final(resources)@) == play_spec(
            stage_of(old(objects)@, old(resources)@),
            actions@,
            *sequence,
            sequence_time.curr_time,
            sequence_time.target_time,
        ),
        final(objects)@.len() == old(objects)@.len(),
        final(resources)@.len() == old(resources)@.len(),
{
    let curr: u64 = sequence_time.curr_time;
    let target: u64 = sequence_time.target_time;
    // No timeline movement, or nothing to play: nothing to do.
    if curr == target || sequence.action_metas.len() == 0 {
        return ;
    }
    let forward: bool = target > curr;
    let window_lo: u64 = if curr <= target {
        curr
    } else {
        target
    };
    let window_hi: u64 = if curr <= target {
        target
    } else {
        curr
    };
    let n: usize = sequence.action_metas.len();
    let ghost st0: StageView = stage_of(objects@, resources@);
    for j in 0..n
        invariant
            sequence.wf(),
            actions_ok(actions@),
            sequence.action_metas@.len() == n,
            1 <= n,
            forward == (target > curr),
            window_lo == if curr <= target {
                curr
            } else {
                target
            },
            window_hi == if curr <= target {
                target
            } else {
                curr
            },
            stage_of(objects@, resources@) == play_upto(
                st0,
                actions@,
                sequence.action_metas@,
                window_lo,
                window_hi,
                target,
                forward,
                j as int,
            ),
            objects@.len() == old(objects)@.len(),
            resources@.len() == old(resources)@.len(),
    {
        let idx: usize = if forward {
            j
        } else {
            n - 1 - j
        };
        proof {
            assert(idx as int == pass_index(n as int, forward, j as int));
            assert(sequence.action_metas@[idx as int].fits());
        }
        let meta: ActionMeta = sequence.action_metas[idx];
        let meta_end: u64 = meta.end_time();
        let ghost st_pre: StageView = stage_of(objects@, resources@);
        // Skip entries whose window misses the scrubbed range entirely.
        if time_range_overlap(meta.start_time, meta_end, window_lo, window_hi) {
            // Skip silently if the action record no longer exists.
            if meta.action_id < actions.len() {
                match &actions[meta.action_id] {
                    Option::Some(action) => {
                        let p: Progress = meta.eased_progress_at(target);
                        apply_action(objects, resources, action, p);
                    },
                    Option::None => {},
                }
            }
        }
        proof {
            assert(stage_of(objects@, resources@) == eval_meta_spec(
                st_pre,
                actions@,
                meta,
                window_lo,
                window_hi,
                target,
            ));
        }
    }
}

/// The target position clamped into the sequence: an out-of-range scrub
/// request is recovered locally, never an error.
pub open spec fn clamp_target_spec(target: u64, duration: u64) -> u64 {
    if target <= duration {
        target
    } else {
        duration
    }
}

/// Reconcile every timeline after the pass: clamp the requested target into
/// its sequence and settle the current position on it, so that until the
/// caller moves the target again, further passes are no-ops.
pub fn sequence_time_update_system(q_sequences: &mut Vec<SequenceBundle>)
    ensures
        final(q_sequences)@.len() == old(q_sequences)@.len(),
        forall|i: int|
            0 <= i < old(q_sequences)@.len() ==> {
                &&& (#[trigger] final(q_sequences)@[i]).sequence == old(q_sequences)@[i].sequence
                &&& final(q_sequences)@[i].sequence_time.target_time == clamp_target_spec(
                    old(q_sequences)@[i].sequence_time.target_time,
                    old(q_sequences)@[i].sequence.duration,
                )
                &&& final(q_sequences)@[i].sequence_time.curr_time == final(q_sequences)@[
                    i
                ].sequence_time.target_time
            },
{
    let ghost orig: Seq<SequenceBundle> = q_sequences@;
    let n: usize = q_sequences.len();
    for i in 0..n
        invariant
            q_sequences@.len() == n,
            orig.len() == n,
            forall|j: int|
                0 <= j < i ==> {
                    &&& (#[trigger] q_sequences@[j]).sequence == orig[j].sequence
                    &&& q_sequences@[j].sequence_time.target_time == clamp_target_spec(
                        orig[j].sequence_time.target_time,
                        orig[j].sequence.duration,
                    )
                    &&& q_sequences@[j].sequence_time.curr_time == q_sequences@[
                        j
                    ].sequence_time.target_time
                },
            forall|j: int| i <= j < n ==> q_sequences@[j] == orig[j],
    {
        let mut bundle: SequenceBundle = q_sequences.remove(i);
        let duration: u64 = bundle.sequence.duration;
        let clamped: u64 = if bundle.sequence_time.target_time <= duration {
            bundle.sequence_time.target_time
        } else {
            duration
        };
        bundle.sequence_time.target_time = clamped;
        bundle.sequence_time.curr_time = clamped;
        q_sequences.insert(i, bundle);
    }
}

/// Stage after the first `k` timelines have each been played once, in order.
pub open spec fn play_all_spec(
    st: StageView,
    actions: Seq<Option<Action>>,
    bundles: Seq<SequenceBundle>,
    k: int,
) -> StageView
    decreases k,
{
    if k <= 0 {
        st
    } else {
        play_spec(
            play_all_spec(st, actions, bundles, k - 1),
            actions,
            bundles[k - 1].sequence,
            bundles[k - 1].sequence_time.curr_time,
            bundles[k - 1].sequence_time.target_time,
        )
    }
}

/// The per-frame scheduling entry point: play every active timeline once,
/// in store order, against the shared stores.
pub fn sequence_update_system(
    objects: &mut Vec<Option<Object>>,
    actions: &Vec<Option<Action>>,
    resources: &mut Vec<Vec<i64>>,
    q_sequences: &Vec<SequenceBundle>,
)
    requires
        actions_ok(actions@),
        forall|i: int|
            0 <= i < q_sequences@.len() ==> (#[trigger] q_sequences@[i]).sequence.wf(),
    ensures
        stage_of(final(objects)@, final(resources)@) == play_all_spec(
            stage_of(old(objects)@, old(resources)@),
            actions@,
            q_sequences@,
            q_sequences@.len() as int,
        ),
        final(objects)@.len() == old(objects)@.len(),
        final(resources)@.len() == old(resources)@.len(),
{
    let ghost st0: StageView = stage_of(objects@, resources@);
    let n: usize = q_sequences.len();
    for k in 0..n
        invariant
            actions_ok(actions@),
            q_sequences@.len() == n,
            forall|i: int|
                0 <= i < q_sequences@.len() ==> (#[trigger] q_sequences@[i]).sequence.wf(),
            stage_of(objects@, resources@) == play_all_spec(st0, actions@, q_sequences@, k as int),
            objects@.len() == old(objects)@.len(),
            resources@.len() == old(resources)@.len(),
    {
        let bundle: &SequenceBundle = &q_sequences[k];
        play_sequence(objects, actions, resources, &bundle.sequence, &bundle.sequence_time);
    }
}

/// Move one timeline to its requested position: clamp the target into the
/// sequence, run one evaluation pass from the previous position toward the
/// clamped target, and reconcile the playback state, so that a second seek
/// with an unchanged target is a no-op.
pub fn seek_sequence(
    sequence: &Sequence,
    sequence_time: &mut SequenceTime,
    objects: &mut Vec<Option<Object>>,
    actions: &Vec<Option<Action>>,
    resources: &mut Vec<Vec<i64>>,
)
    requires
        sequence.wf(),
        actions_ok(actions@),
    ensures
        final(sequence_time).target_time == clamp_target_spec(
            old(sequence_time).target_time,
            sequence.duration,
        ),
        final(sequence_time).curr_time == final(sequence_time).target_time,
        stage_of(final(objects)@, final(resources)@) == play_spec(
            stage_of(old(objects)@, old(resources)@),
            actions@,
            *sequence,
            old(sequence_time).curr_time,
            clamp_target_spec(old(sequence_time).target_time, sequence.duration),
        ),
        final(objects)@.len() == old(objects)@.len(),
        final(resources)@.len() == old(resources)@.len(),
{
    let prev: u64 = sequence_time.curr_time;
    let clamped: u64 = if sequence_time.target_time <= sequence.duration {
        sequence_time.target_time
    } else {
        sequence.duration
    };
    sequence_time.target_time = clamped;
    sequence_time.curr_time = clamped;
    let pass_time: SequenceTime = SequenceTime { curr_time: prev, target_time: clamped };
    play_sequence(objects, actions, resources, sequence, &pass_time);
}

/// Indices of live objects among the first `k` whose rebuild flag is
/// raised, in ascending order.
pub open spec fn rebuild_ids(objects: Seq<Option<Object>>, k: int) -> Seq<usize>
    decreases k,
{
    if k <= 0 {
        Seq::<usize>::empty()
    } else {
        let rest = rebuild_ids(objects, k - 1);
        match objects[k - 1] {
            Option::Some(o) => if o.should_build {
                rest.push((k - 1) as usize)
            } else {
                rest
            },
            Option::None => rest,
        }
    }
}

/// `o` with its rebuild flag lowered; a hole stays a hole.
pub open spec fn flag_cleared(o: Option<Object>) -> Option<Object> {
    match o {
        Option::Some(obj) => Option::Some(Object { value: obj.value, should_build: false }),
        Option::None => Option::None,
    }
}

/// The decision half of the geometry rebuild pass: collect the objects
/// flagged for rebuild, in index order, and lower their flags, so that a
/// second pass finds nothing to rebuild. The drawing host then rebuilds the
/// returned targets' geometry.
pub fn vector_builder(objects: &mut Vec<Option<Object>>) -> (r: Vec<usize>)
    ensures
        r@ == rebuild_ids(old(objects)@, old(objects)@.len() as int),
        final(objects)@.len() == old(objects)@.len(),
        forall|i: int|
            0 <= i < old(objects)@.len() ==> final(objects)@[i] == flag_cleared(
                #[trigger] old(objects)@[i],
            ),
{
    let ghost orig: Seq<Option<Object>> = objects@;
    let mut r: Vec<usize> = Vec::new();
    let n: usize = objects.len();
    for i in 0..n
        invariant
            objects@.len() == n,
            orig.len() == n,
            r@ == rebuild_ids(orig, i as int),
            forall|j: int| 0 <= j < i ==> objects@[j] == flag_cleared(#[trigger] orig[j]),
            forall|j: int| i <= j < n ==> objects@[j] == orig[j],
    {
        let flagged: bool = match &objects[i] {
            Option::Some(o) => o.should_build,
            Option::None => false,
        };
        if flagged {
            r.push(i);
            let slot: Option<Object> = objects.remove(i);
            let ghost before: Seq<Option<Object>> = objects@;
            match slot {
                Option::Some(mut obj) => {
                    obj.should_build = false;
                    objects.insert(i, Option::Some(obj));
                },
                Option::None => {
                    objects.insert(i, Option::None);
                },
            }
            proof {
                assert(objects@ =~= before.insert(i as int, flag_cleared(orig[i as int])));
            }
        }
    }
    r
}

} // verus!
