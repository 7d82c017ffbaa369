//! Laws of the timeline engine, proven once for every sequence, every
//! action store and every stage.

use vstd::prelude::*;

use crate::action::Action;
use crate::action::ActionMeta;
use crate::action::Interp;
use crate::ease::lemma_ease_wf;
use crate::ease::lemma_ease_zero;
use crate::lerp::lemma_lerp_endpoints;
use crate::lerp::lerp_lanes_spec;
use crate::player::clamp_target_spec;
use crate::player::eval_meta_spec;
use crate::player::pass_index;
use crate::player::play_spec;
use crate::player::play_upto;
use crate::player::ObjectView;
use crate::player::StageView;
use crate::player::time_range_overlap_spec;
use crate::sequence::chain_metas;
use crate::sequence::chain_offset;
use crate::sequence::lemma_chain_offset_monotone;
use crate::sequence::shift_meta;
use crate::sequence::shift_metas;
use crate::sequence::Sequence;
use crate::sequence::SequenceTime;

verus! {

/// Moving one action window later in time, together with the scrub window
/// and the target position, changes nothing about what the evaluation step
/// does: selection and progress depend only on relative times.
pub proof fn lemma_eval_shift_invariant(
    st: StageView,
    actions: Seq<Option<Action>>,
    m: ActionMeta,
    shift: u64,
    window_lo: u64,
    window_hi: u64,
    target: u64,
)
    requires
        m.end_time_spec() + shift <= u64::MAX,
        window_lo + shift <= u64::MAX,
        window_hi + shift <= u64::MAX,
        target + shift <= u64::MAX,
    ensures
        eval_meta_spec(
            st,
            actions,
            shift_meta(m, shift as int),
            (window_lo + shift) as u64,
            (window_hi + shift) as u64,
            (target + shift) as u64,
        ) == eval_meta_spec(st, actions, m, window_lo, window_hi, target),
{
    let sm = shift_meta(m, shift as int);
    assert(sm.start_time == m.start_time + shift);
    assert(sm.progress_spec((target + shift) as u64) == m.progress_spec(target));
}

/// The shift invariance of one step, lifted to the first `k` steps of a
/// whole pass, in either direction.
pub proof fn lemma_play_upto_shift_invariant(
    st: StageView,
    actions: Seq<Option<Action>>,
    metas: Seq<ActionMeta>,
    shift: u64,
    window_lo: u64,
    window_hi: u64,
    target: u64,
    forward: bool,
    k: int,
)
    requires
        0 <= k <= metas.len(),
        forall|i: int|
            0 <= i < metas.len() ==> (#[trigger] metas[i]).end_time_spec() + shift <= u64::MAX,
        window_lo + shift <= u64::MAX,
        window_hi + shift <= u64::MAX,
        target + shift <= u64::MAX,
    ensures
        play_upto(
            st,
            actions,
            shift_metas(metas, shift as int),
            (window_lo + shift) as u64,
            (window_hi + shift) as u64,
            (target + shift) as u64,
            forward,
            k,
        ) == play_upto(st, actions, metas, window_lo, window_hi, target, forward, k),
    decreases k,
{
    let shifted = shift_metas(metas, shift as int);
    assert(shifted.len() == metas.len());
    if k > 0 {
        lemma_play_upto_shift_invariant(
            st,
            actions,
            metas,
            shift,
            window_lo,
            window_hi,
            target,
            forward,
            k - 1,
        );
        let idx = pass_index(metas.len() as int, forward, k - 1);
        assert(shifted[idx] == shift_meta(metas[idx], shift as int));
        lemma_eval_shift_invariant(
            play_upto(st, actions, metas, window_lo, window_hi, target, forward, k - 1),
            actions,
            metas[idx],
            shift,
            window_lo,
            window_hi,
            target,
        );
    }
}

/// Playing a sequence whose every window was moved `shift` ticks later,
/// scrubbed between positions moved by the same amount, produces exactly
/// the stage that playing the original sequence between the original
/// positions does. A child that `delay`, `chain` or `flow` placed later on
/// a combined timeline therefore does, at `t`, precisely what it would do
/// in isolation at `t` minus its offset.
pub proof fn lemma_play_shift_invariant(
    st: StageView,
    actions: Seq<Option<Action>>,
    sequence: Sequence,
    shifted: Sequence,
    shift: u64,
    curr: u64,
    target: u64,
)
    requires
        shifted.action_metas@ == shift_metas(sequence.action_metas@, shift as int),
        forall|i: int|
            0 <= i < sequence.action_metas@.len() ==> (#[trigger] sequence.action_metas@[
                i
            ]).end_time_spec() + shift <= u64::MAX,
        curr + shift <= u64::MAX,
        target + shift <= u64::MAX,
    ensures
        play_spec(st, actions, shifted, (curr + shift) as u64, (target + shift) as u64)
            == play_spec(st, actions, sequence, curr, target),
{
    let metas = sequence.action_metas@;
    assert(shifted.action_metas@.len() == metas.len());
    if curr == target || metas.len() == 0 {
    } else {
        let window_lo = if curr <= target {
            curr
        } else {
            target
        };
        let window_hi = if curr <= target {
            target
        } else {
            curr
        };
        lemma_play_upto_shift_invariant(
            st,
            actions,
            metas,
            shift,
            window_lo,
            window_hi,
            target,
            target > curr,
            metas.len() as int,
        );
    }
}

/// A pass that does not move the timeline does nothing, whatever the stage,
/// the sequence and the action store.
pub proof fn lemma_still_pass_is_noop(
    st: StageView,
    actions: Seq<Option<Action>>,
    sequence: Sequence,
    t: u64,
)
    ensures
        play_spec(st, actions, sequence, t, t) == st,
{
}

/// Seeking twice to the same target is idempotent: one seek leaves the
/// playback state reconciled — current equals target, inside the sequence —
/// so the next seek clamps the target to itself and its pass touches
/// nothing.
pub proof fn lemma_seek_idempotent(
    st: StageView,
    actions: Seq<Option<Action>>,
    sequence: Sequence,
    time: SequenceTime,
)
    requires
        time.curr_time == time.target_time,
        time.target_time <= sequence.duration,
    ensures
        clamp_target_spec(time.target_time, sequence.duration) == time.target_time,
        play_spec(
            st,
            actions,
            sequence,
            time.curr_time,
            clamp_target_spec(time.target_time, sequence.duration),
        ) == st,
{
}

/// Scrubbing home restores the begin value bit-for-bit: play a one-action
/// timeline backward from any position to `0` — the target object's
/// property is exactly the action's begin value again, nothing else moves,
/// and no explicit cancel path is ever needed.
pub proof fn lemma_seek_back_restores_begin(
    st: StageView,
    actions: Seq<Option<Action>>,
    sequence: Sequence,
    curr: u64,
    m: ActionMeta,
    a: Action,
)
    requires
        sequence.action_metas@ == seq![m],
        0 <= m.action_id < actions.len(),
        actions[m.action_id as int] == Option::Some(a),
        a.wf(),
        a.interp == Interp::Property,
        0 <= a.target < st.objects.len(),
        st.objects[a.target as int] is Some,
        0 < curr,
        m.start_time <= curr,
    ensures
        ({
            let end = play_spec(st, actions, sequence, curr, 0);
            &&& end.objects.len() == st.objects.len()
            &&& end.objects[a.target as int] == Option::Some(
                ObjectView { value: a.begin@, should_build: true },
            )
            &&& forall|j: int|
                0 <= j < st.objects.len() && j != a.target ==> end.objects[j] == st.objects[j]
            &&& end.resources == st.resources
        }),
{
    let p = m.progress_spec(0);
    let eased = m.ease_fn.ease_spec(p);
    assert(p.wf() && p.den <= u32::MAX);
    lemma_ease_zero(m.ease_fn, p);
    lemma_ease_wf(m.ease_fn, p);
    assert(eased.is_zero() && eased.wf());
    assert forall|i: int| 0 <= i < a.begin@.len() implies lerp_lanes_spec(a.begin@, a.end@, eased)[
        i
    ] == a.begin@[i] by {
        lemma_lerp_endpoints(a.begin@[i] as int, a.end@[i] as int, eased);
    }
    assert(lerp_lanes_spec(a.begin@, a.end@, eased) =~= a.begin@);
    assert(sequence.action_metas@[0] == m);
    assert(play_upto(st, actions, sequence.action_metas@, 0, curr, 0, false, 0) == st);
    assert(play_upto(st, actions, sequence.action_metas@, 0, curr, 0, false, 1) == eval_meta_spec(
        st,
        actions,
        m,
        0,
        curr,
        0,
    ));
}


/// Entries whose windows miss the scrubbed range drop out of a forward
/// pass: evaluating all of `metas` equals evaluating only the block
/// `[a, b)`, provided everything outside the block misses the window.
proof fn lemma_play_upto_skip_forward(
    st: StageView,
    actions: Seq<Option<Action>>,
    metas: Seq<ActionMeta>,
    a: int,
    b: int,
    window_lo: u64,
    window_hi: u64,
    target: u64,
    k: int,
)
    requires
        0 <= a <= b <= metas.len(),
        0 <= k <= metas.len(),
        forall|j: int|
            0 <= j < metas.len() && !(a <= j < b) ==> !time_range_overlap_spec(
                (#[trigger] metas[j]).start_time as int,
                metas[j].end_time_spec(),
                window_lo as int,
                window_hi as int,
            ),
    ensures
        play_upto(st, actions, metas, window_lo, window_hi, target, true, k) == play_upto(
            st,
            actions,
            metas.subrange(a, b),
            window_lo,
            window_hi,
            target,
            true,
            if k <= a {
                0int
            } else if k >= b {
                b - a
            } else {
                k - a
            },
        ),
    decreases k,
{
    let mid = metas.subrange(a, b);
    if k > 0 {
        lemma_play_upto_skip_forward(
            st,
            actions,
            metas,
            a,
            b,
            window_lo,
            window_hi,
            target,
            k - 1,
        );
        let idx = k - 1;
        assert(pass_index(metas.len() as int, true, idx) == idx);
        if a <= idx < b {
            assert(mid[idx - a] == metas[idx]);
            assert(pass_index(mid.len() as int, true, idx - a) == idx - a);
        }
    }
}

/// Entries whose windows miss the scrubbed range drop out of a backward
/// pass as well.
proof fn lemma_play_upto_skip_backward(
    st: StageView,
    actions: Seq<Option<Action>>,
    metas: Seq<ActionMeta>,
    a: int,
    b: int,
    window_lo: u64,
    window_hi: u64,
    target: u64,
    k: int,
)
    requires
        0 <= a <= b <= metas.len(),
        0 <= k <= metas.len(),
        forall|j: int|
            0 <= j < metas.len() && !(a <= j < b) ==> !time_range_overlap_spec(
                (#[trigger] metas[j]).start_time as int,
                metas[j].end_time_spec(),
                window_lo as int,
                window_hi as int,
            ),
    ensures
        play_upto(st, actions, metas, window_lo, window_hi, target, false, k) == play_upto(
            st,
            actions,
            metas.subrange(a, b),
            window_lo,
            window_hi,
            target,
            false,
            ({
                let n = metas.len() as int;
                if k <= n - b {
                    0int
                } else if k >= n - a {
                    b - a
                } else {
                    k - (n - b)
                }
            }),
        ),
    decreases k,
{
    let n = metas.len() as int;
    let mid = metas.subrange(a, b);
    if k > 0 {
        lemma_play_upto_skip_backward(
            st,
            actions,
            metas,
            a,
            b,
            window_lo,
            window_hi,
            target,
            k - 1,
        );
        let idx = n - k;
        assert(pass_index(n, false, k - 1) == idx);
        if a <= idx < b {
            let c = k - (n - b) - 1;
            assert(pass_index(mid.len() as int, false, c) == idx - a);
            assert(mid[idx - a] == metas[idx]);
        }
    }
}

/// With every child covering its own duration, every window among the
/// first `k` chained children has ended by the `k`-th chain offset.
proof fn lemma_chain_metas_end_bound(seqs: Seq<Sequence>, k: int)
    requires
        0 <= k <= seqs.len(),
        forall|i: int| 0 <= i < seqs.len() ==> (#[trigger] seqs[i]).covers(),
    ensures
        forall|t: int|
            0 <= t < chain_metas(seqs, k).len() ==> (#[trigger] chain_metas(seqs, k)[
                t
            ]).end_time_spec() <= chain_offset(seqs, k),
    decreases k,
{
    if k > 0 {
        lemma_chain_metas_end_bound(seqs, k - 1);
        lemma_chain_offset_monotone(seqs, k - 1, k);
        let child = seqs[k - 1].action_metas@;
        let shifted = shift_metas(child, chain_offset(seqs, k - 1));
        assert forall|t: int| 0 <= t < chain_metas(seqs, k).len() implies (
        #[trigger] chain_metas(seqs, k)[t]).end_time_spec() <= chain_offset(seqs, k) by {
            let pre = chain_metas(seqs, k - 1);
            if t >= pre.len() {
                assert(chain_metas(seqs, k)[t] == shifted[t - pre.len()]);
                assert(shifted[t - pre.len()] == shift_meta(
                    child[t - pre.len()],
                    chain_offset(seqs, k - 1),
                ));
            }
        }
    }
}

/// Chained metadata grows child by child: the metadata of the first `i`
/// children stays a prefix, and every entry added by a later child starts
/// at or after the `i`-th chain offset.
proof fn lemma_chain_metas_suffix(seqs: Seq<Sequence>, i: int, k: int)
    requires
        crate::sequence::chain_fits(seqs),
        0 <= i <= k <= seqs.len(),
    ensures
        chain_metas(seqs, i).len() <= chain_metas(seqs, k).len(),
        chain_metas(seqs, k).subrange(0, chain_metas(seqs, i).len() as int) == chain_metas(
            seqs,
            i,
        ),
        forall|t: int|
            chain_metas(seqs, i).len() <= t < chain_metas(seqs, k).len() ==> (
            #[trigger] chain_metas(seqs, k)[t]).start_time as int >= chain_offset(seqs, i),
    decreases k,
{
    if i < k {
        lemma_chain_metas_suffix(seqs, i, k - 1);
        lemma_chain_offset_monotone(seqs, i, k - 1);
        let pre = chain_metas(seqs, i);
        let grown = chain_metas(seqs, k - 1);
        let child = seqs[k - 1].action_metas@;
        let shifted = shift_metas(child, chain_offset(seqs, k - 1));
        assert(chain_metas(seqs, k) == grown + shifted);
        assert(chain_metas(seqs, k).subrange(0, pre.len() as int) =~= pre);
        assert forall|t: int|
            pre.len() <= t < chain_metas(seqs, k).len() implies (#[trigger] chain_metas(seqs, k)[
            t
        ]).start_time as int >= chain_offset(seqs, i) by {
            if t >= grown.len() {
                let u = t - grown.len();
                assert(chain_metas(seqs, k)[t] == shifted[u]);
                assert(shifted[u] == shift_meta(child[u], chain_offset(seqs, k - 1)));
                assert(seqs[k - 1].action_metas@[u].end_time_spec() + chain_offset(seqs, k - 1)
                    <= u64::MAX);
            } else {
                assert(chain_metas(seqs, k)[t] == grown[t]);
            }
        }
    } else {
        assert(chain_metas(seqs, k).subrange(0, chain_metas(seqs, i).len() as int)
            =~= chain_metas(seqs, i));
    }
}

/// Scrubbing a chained timeline strictly inside one child's slot does
/// exactly what scrubbing that child alone does at child-relative times:
/// the other children's windows all miss the scrub range, and the child's
/// own windows are merely shifted by its chain offset.
pub proof fn lemma_chain_plays_child_in_isolation(
    st: StageView,
    actions: Seq<Option<Action>>,
    seqs: Seq<Sequence>,
    combined: Sequence,
    i: int,
    curr: u64,
    target: u64,
)
    requires
        combined.action_metas@ == chain_metas(seqs, seqs.len() as int),
        crate::sequence::chain_fits(seqs),
        forall|j: int| 0 <= j < seqs.len() ==> (#[trigger] seqs[j]).covers(),
        0 <= i < seqs.len(),
        chain_offset(seqs, i) < curr < chain_offset(seqs, i + 1),
        chain_offset(seqs, i) < target < chain_offset(seqs, i + 1),
    ensures
        play_spec(st, actions, combined, curr, target) == play_spec(
            st,
            actions,
            seqs[i],
            (curr - chain_offset(seqs, i)) as u64,
            (target - chain_offset(seqs, i)) as u64,
        ),
{
    let n = seqs.len() as int;
    let off = chain_offset(seqs, i);
    lemma_chain_offset_monotone(seqs, 0, i);
    lemma_chain_offset_monotone(seqs, i + 1, n);
    let child = seqs[i].action_metas@;
    let full = chain_metas(seqs, n);
    let pre = chain_metas(seqs, i);
    let mid_end = chain_metas(seqs, i + 1);
    let a = pre.len() as int;
    let b = mid_end.len() as int;
    let mid = shift_metas(child, off);
    assert(mid_end == pre + mid);
    lemma_chain_metas_suffix(seqs, i, i + 1);
    lemma_chain_metas_suffix(seqs, i + 1, n);
    lemma_chain_metas_suffix(seqs, i, n);
    lemma_chain_metas_end_bound(seqs, i);
    assert forall|t: int| 0 <= t < b - a implies full.subrange(a, b)[t] == mid[t] by {
        assert(full.subrange(0, b)[a + t] == mid_end[a + t]);
        assert(mid_end[a + t] == mid[t]);
    }
    assert(full.subrange(a, b) =~= mid);

    let curr0 = (curr - off) as u64;
    let target0 = (target - off) as u64;
    if curr == target {
    } else {
        let window_lo = if curr <= target { curr } else { target };
        let window_hi = if curr <= target { target } else { curr };
        let lo0 = (window_lo - off) as u64;
        let hi0 = (window_hi - off) as u64;
        let fwd = target > curr;

        // Everything outside the child's block misses the window.
        assert forall|j: int|
            0 <= j < full.len() && !(a <= j < b) implies !time_range_overlap_spec(
            (#[trigger] full[j]).start_time as int,
            full[j].end_time_spec(),
            window_lo as int,
            window_hi as int,
        ) by {
            if j < a {
                assert(full[j] == pre[j]);
                assert(pre[j].end_time_spec() <= off);
            } else {
                assert(full[j].start_time as int >= chain_offset(seqs, i + 1));
            }
        }

        if fwd {
            lemma_play_upto_skip_forward(
                st,
                actions,
                full,
                a,
                b,
                window_lo,
                window_hi,
                target,
                full.len() as int,
            );
        } else {
            lemma_play_upto_skip_backward(
                st,
                actions,
                full,
                a,
                b,
                window_lo,
                window_hi,
                target,
                full.len() as int,
            );
        }
        // The child's block, unshifted, is the child played at relative times.
        assert forall|t: int| 0 <= t < child.len() implies (#[trigger] child[
            t
        ]).end_time_spec() + (off as u64) <= u64::MAX by {
            assert(seqs[i].action_metas@[t] == child[t]);
        }
        lemma_play_upto_shift_invariant(
            st,
            actions,
            child,
            off as u64,
            lo0,
            hi0,
            target0,
            fwd,
            child.len() as int,
        );
        assert((lo0 + off as u64) as u64 == window_lo);
        assert((hi0 + off as u64) as u64 == window_hi);
        assert((target0 + off as u64) as u64 == target);
        assert(shift_metas(child, off as u64 as int) == mid);
        if full.len() == 0 {
            assert(child.len() == 0);
        }
    }
}

} // verus!
