//! Sequences of scheduled actions and the pure combinators that compose them.
//!
//! A [`Sequence`] is an ordered collection of [`ActionMeta`] entries plus its
//! own total duration. Sequences are built once — by [`Sequence::single`] or
//! by a combinator — and never mutated afterwards, except for the builder
//! that re-eases every entry uniformly. Combinators never touch their
//! inputs: they clone and time-shift the children's metadata and recompute
//! the combined duration.
//!
//! Playback position lives apart from the structure, in [`SequenceTime`], so
//! any number of timelines can share one combinator-built sequence.

use vstd::prelude::*;

use crate::action::ActionMeta;
use crate::ease::EaseKind;

verus! {

/// A group of timed actions with a total duration, in insertion order.
/// Order is not semantically required — the scheduler selects by window
/// overlap — but it is preserved, and it decides in which order actions
/// touching the same object are applied within one pass.
#[derive(Clone, Debug)]
pub struct Sequence {
    /// Total length of the sequence in ticks.
    pub duration: u64,
    /// The scheduled actions, in insertion order.
    pub action_metas: Vec<ActionMeta>,
}

/// Playback state of one timeline: where it sits and where it is asked to
/// go. Many timelines may play the same shared [`Sequence`].
#[derive(Clone, Copy, PartialEq, Eq, Structural, Debug)]
pub struct SequenceTime {
    /// Position the last scheduler pass ended at.
    pub curr_time: u64,
    /// Position the caller asks the timeline to move to.
    pub target_time: u64,
}

impl SequenceTime {
    /// A timeline at rest at its origin.
    pub fn new() -> (t: SequenceTime)
        ensures
            t == (SequenceTime { curr_time: 0, target_time: 0 }),
    {
        SequenceTime { curr_time: 0, target_time: 0 }
    }
}

/// A sequence paired with the playback state that drives it: what the host
/// attaches to one timeline entity.
#[derive(Clone, Debug)]
pub struct SequenceBundle {
    pub sequence: Sequence,
    pub sequence_time: SequenceTime,
}

impl SequenceBundle {
    /// Bundle a freshly built sequence with a timeline at rest.
    pub fn new(sequence: Sequence) -> (b: SequenceBundle)
        ensures
            b.sequence == sequence,
            b.sequence_time == (SequenceTime { curr_time: 0, target_time: 0 }),
    {
        SequenceBundle { sequence, sequence_time: SequenceTime::new() }
    }
}

impl Sequence {
    /// Every action window in the sequence stays inside the tick range.
    pub open spec fn wf(self) -> bool {
        forall|i: int|
            0 <= i < self.action_metas@.len() ==> (#[trigger] self.action_metas@[i]).fits()
    }

    /// The declared duration covers every action window. This holds for
    /// every combinator except the race, whose duration is deliberately cut
    /// to the shortest child.
    pub open spec fn covers(self) -> bool {
        forall|i: int|
            0 <= i < self.action_metas@.len() ==> (#[trigger] self.action_metas@[i]).end_time_spec()
                <= self.duration
    }

    /// A sequence holding one scheduled action; the sequence lasts as long
    /// as the action does.
    pub fn single(action_meta: ActionMeta) -> (s: Sequence)
        requires
            action_meta.fits(),
        ensures
            s.duration == action_meta.duration,
            s.action_metas@ == seq![action_meta],
            s.wf(),
            action_meta.start_time == 0 ==> s.covers(),
    {
        let duration: u64 = action_meta.duration as u64;
        let mut action_metas: Vec<ActionMeta> = Vec::new();
        action_metas.push(action_meta);
        proof {
            assert(action_metas@ =~= seq![action_meta]);
        }
        Sequence { duration, action_metas }
    }

    /// A sequence with no actions at all: pure waiting time.
    pub fn empty(duration: u64) -> (s: Sequence)
        ensures
            s.duration == duration,
            s.action_metas@ == Seq::<ActionMeta>::empty(),
            s.wf(),
            s.covers(),
    {
        let action_metas: Vec<ActionMeta> = Vec::new();
        proof {
            assert(action_metas@ =~= Seq::<ActionMeta>::empty());
        }
        Sequence { duration, action_metas }
    }

    /// Apply one easing curve to every action in this sequence, overriding
    /// whatever easing each entry had: the last whole-sequence re-ease wins.
    pub fn with_ease(self, ease_fn: EaseKind) -> (s: Sequence)
        ensures
            s.duration == self.duration,
            s.action_metas@.len() == self.action_metas@.len(),
            forall|i: int|
                0 <= i < self.action_metas@.len() ==> s.action_metas@[i] == (ActionMeta {
                    ease_fn,
                    ..self.action_metas@[i]
                }),
    {
        let mut metas: Vec<ActionMeta> = self.action_metas;
        let ghost orig: Seq<ActionMeta> = metas@;
        let n: usize = metas.len();
        for i in 0..n
            invariant
                metas@.len() == n,
                orig.len() == n,
                forall|j: int| 0 <= j < i ==> metas@[j] == (ActionMeta { ease_fn, ..orig[j] }),
                forall|j: int| i <= j < n ==> metas@[j] == orig[j],
        {
            let m: ActionMeta = metas[i];
            metas.set(
                i,
                ActionMeta {
                    action_id: m.action_id,
                    start_time: m.start_time,
                    duration: m.duration,
                    ease_fn,
                },
            );
        }
        Sequence { duration: self.duration, action_metas: metas }
    }

    /// Total length of this sequence in ticks.
    pub fn duration(&self) -> (d: u64)
        ensures
            d == self.duration,
    {
        self.duration
    }
}

/// `m` moved to start `shift` ticks later; nothing else changes.
pub open spec fn shift_meta(m: ActionMeta, shift: int) -> ActionMeta {
    ActionMeta { start_time: (m.start_time + shift) as u64, ..m }
}

/// All of `ms` moved `shift` ticks later, in the same order.
pub open spec fn shift_metas(ms: Seq<ActionMeta>, shift: int) -> Seq<ActionMeta> {
    ms.map_values(|m: ActionMeta| shift_meta(m, shift))
}

/// Start offset of child `i` under [`chain`]: the total duration of the
/// children before it.
pub open spec fn chain_offset(seqs: Seq<Sequence>, i: int) -> int
    decreases i,
{
    if i <= 0 {
        0
    } else {
        chain_offset(seqs, i - 1) + seqs[i - 1].duration
    }
}

/// The first `k` children's metadata, each child shifted by its chain offset.
pub open spec fn chain_metas(seqs: Seq<Sequence>, k: int) -> Seq<ActionMeta>
    decreases k,
{
    if k <= 0 {
        Seq::<ActionMeta>::empty()
    } else {
        chain_metas(seqs, k - 1) + shift_metas(
            seqs[k - 1].action_metas@,
            chain_offset(seqs, k - 1),
        )
    }
}

/// Every chained window stays inside the tick range: the combined duration
/// fits, and so does every child window once shifted by its offset.
pub open spec fn chain_fits(seqs: Seq<Sequence>) -> bool {
    &&& chain_offset(seqs, seqs.len() as int) <= u64::MAX
    &&& forall|i: int, j: int|
        #![trigger seqs[i].action_metas@[j]]
        0 <= i < seqs.len() && 0 <= j < seqs[i].action_metas@.len() ==> seqs[i].action_metas@[
            j
        ].end_time_spec() + chain_offset(seqs, i) <= u64::MAX
}

/// Chain offsets are never negative.
pub proof fn lemma_chain_offset_nonneg(seqs: Seq<Sequence>, i: int)
    ensures
        0 <= chain_offset(seqs, i),
    decreases i,
{
    if i > 0 {
        lemma_chain_offset_nonneg(seqs, i - 1);
    }
}

/// Chain offsets never decrease.
pub proof fn lemma_chain_offset_monotone(seqs: Seq<Sequence>, i: int, j: int)
    requires
        0 <= i <= j,
    ensures
        0 <= chain_offset(seqs, i) <= chain_offset(seqs, j),
    decreases j,
{
    lemma_chain_offset_nonneg(seqs, i);
    if i < j {
        lemma_chain_offset_monotone(seqs, i, j - 1);
    }
}

/// A chain fits whenever each child's duration covers its own windows and
/// the summed duration fits the tick range: every shifted window then ends
/// by the total.
pub proof fn lemma_chain_fits_from_covers(seqs: Seq<Sequence>)
    requires
        chain_offset(seqs, seqs.len() as int) <= u64::MAX,
        forall|i: int| 0 <= i < seqs.len() ==> (#[trigger] seqs[i]).covers(),
    ensures
        chain_fits(seqs),
{
    assert forall|i: int, j: int|
        #![trigger seqs[i].action_metas@[j]]
        0 <= i < seqs.len() && 0 <= j < seqs[i].action_metas@.len() implies seqs[i].action_metas@[
        j
    ].end_time_spec() + chain_offset(seqs, i) <= u64::MAX by {
        assert(seqs[i].action_metas@[j].end_time_spec() <= seqs[i].duration);
        assert(chain_offset(seqs, i + 1) == chain_offset(seqs, i) + seqs[i].duration);
        lemma_chain_offset_monotone(seqs, i + 1, seqs.len() as int);
    }
}

/// Run the children one after another: child `i` starts when children
/// `0 .. i` have finished, and the combined duration is the sum of all the
/// children's durations.
pub fn chain(sequences: &[Sequence]) -> (r: Sequence)
    requires
        chain_fits(sequences@),
    ensures
        r.duration == chain_offset(sequences@, sequences@.len() as int),
        r.action_metas@ == chain_metas(sequences@, sequences@.len() as int),
        r.wf(),
        (forall|i: int| 0 <= i < sequences@.len() ==> (#[trigger] sequences@[i]).covers())
            ==> r.covers(),
{
    let ghost children: Seq<Sequence> = sequences@;
    let ghost all_cover: bool = forall|i: int|
        0 <= i < children.len() ==> (#[trigger] children[i]).covers();
    let mut final_metas: Vec<ActionMeta> = Vec::new();
    let mut chain_duration: u64 = 0;
    let n: usize = sequences.len();
    proof {
        assert(final_metas@ =~= chain_metas(children, 0));
    }
    for k in 0..n
        invariant
            chain_fits(children),
            children.len() == n,
            sequences@ == children,
            all_cover == (forall|i: int|
                0 <= i < children.len() ==> (#[trigger] children[i]).covers()),
            chain_duration == chain_offset(children, k as int),
            final_metas@ == chain_metas(children, k as int),
            forall|t: int| 0 <= t < final_metas@.len() ==> (#[trigger] final_metas@[t]).fits(),
            all_cover ==> forall|t: int|
                0 <= t < final_metas@.len() ==> (#[trigger] final_metas@[t]).end_time_spec()
                    <= chain_offset(children, k as int),
    {
        let child: &Sequence = &sequences[k];
        let ghost off: int = chain_offset(children, k as int);
        let m: usize = child.action_metas.len();
        for j in 0..m
            invariant
                chain_fits(children),
                children.len() == n,
                k < n,
                all_cover == (forall|i: int|
                    0 <= i < children.len() ==> (#[trigger] children[i]).covers()),
                child == children[k as int],
                child.action_metas@.len() == m,
                chain_duration == off,
                off == chain_offset(children, k as int),
                final_metas@ == chain_metas(children, k as int) + shift_metas(
                    child.action_metas@.subrange(0, j as int),
                    off,
                ),
                forall|t: int| 0 <= t < final_metas@.len() ==> (#[trigger] final_metas@[t]).fits(),
                all_cover ==> forall|t: int|
                    0 <= t < final_metas@.len() ==> (#[trigger] final_metas@[t]).end_time_spec()
                        <= off + child.duration,
                all_cover ==> forall|t: int|
                    0 <= t < chain_metas(children, k as int).len() ==> (#[trigger] chain_metas(
                        children,
                        k as int,
                    )[t]).end_time_spec() <= off,
        {
            let mut meta: ActionMeta = child.action_metas[j];
            proof {
                assert(meta.end_time_spec() + off <= u64::MAX);
                lemma_chain_offset_monotone(children, k as int, k as int + 1);
            }
            meta.start_time = meta.start_time + chain_duration;
            final_metas.push(meta);
            proof {
                assert(final_metas@ =~= chain_metas(children, k as int) + shift_metas(
                    child.action_metas@.subrange(0, j as int + 1),
                    off,
                ));
            }
        }
        proof {
            assert(child.action_metas@.subrange(0, m as int) =~= child.action_metas@);
            assert(chain_metas(children, k as int + 1) == chain_metas(children, k as int)
                + shift_metas(child.action_metas@, off));
            lemma_chain_offset_monotone(children, k as int + 1, n as int);
        }
        chain_duration = chain_duration + child.duration;
        proof {
            assert(all_cover ==> forall|t: int|
                0 <= t < final_metas@.len() ==> (#[trigger] final_metas@[t]).end_time_spec()
                    <= chain_offset(children, k as int + 1));
        }
    }
    Sequence { duration: chain_duration, action_metas: final_metas }
}

/// The first `k` children's metadata concatenated unshifted, in child order.
pub open spec fn concat_metas(seqs: Seq<Sequence>, k: int) -> Seq<ActionMeta>
    decreases k,
{
    if k <= 0 {
        Seq::<ActionMeta>::empty()
    } else {
        concat_metas(seqs, k - 1) + seqs[k - 1].action_metas@
    }
}

/// Longest duration among the first `k` children, `0` when there are none.
pub open spec fn max_duration(seqs: Seq<Sequence>, k: int) -> int
    decreases k,
{
    if k <= 0 {
        0
    } else if seqs[k - 1].duration >= max_duration(seqs, k - 1) {
        seqs[k - 1].duration as int
    } else {
        max_duration(seqs, k - 1)
    }
}

/// Shortest duration among the first `k` children, `0` when there are none.
pub open spec fn min_duration(seqs: Seq<Sequence>, k: int) -> int
    decreases k,
{
    if k <= 0 {
        0
    } else if k == 1 {
        seqs[0].duration as int
    } else if seqs[k - 1].duration <= min_duration(seqs, k - 1) {
        seqs[k - 1].duration as int
    } else {
        min_duration(seqs, k - 1)
    }
}

/// No child outlasts the maximum of the first `k` durations.
pub proof fn lemma_max_duration_bound(seqs: Seq<Sequence>, i: int, k: int)
    requires
        0 <= i < k,
    ensures
        seqs[i].duration <= max_duration(seqs, k),
        0 <= max_duration(seqs, k),
    decreases k,
{
    if i < k - 1 {
        lemma_max_duration_bound(seqs, i, k - 1);
    }
}

/// Run all children at once and wait for every one of them: nothing is
/// shifted, and the combined duration is the longest child duration.
pub fn all(sequences: &[Sequence]) -> (r: Sequence)
    ensures
        r.duration == max_duration(sequences@, sequences@.len() as int),
        r.action_metas@ == concat_metas(sequences@, sequences@.len() as int),
        (forall|i: int| 0 <= i < sequences@.len() ==> (#[trigger] sequences@[i]).wf()) ==> r.wf(),
        (forall|i: int| 0 <= i < sequences@.len() ==> (#[trigger] sequences@[i]).covers())
            ==> r.covers(),
{
    let ghost children: Seq<Sequence> = sequences@;
    let ghost all_wf: bool = forall|i: int|
        0 <= i < children.len() ==> (#[trigger] children[i]).wf();
    let ghost all_cover: bool = forall|i: int|
        0 <= i < children.len() ==> (#[trigger] children[i]).covers();
    let mut final_metas: Vec<ActionMeta> = Vec::new();
    let mut combined: u64 = 0;
    let n: usize = sequences.len();
    proof {
        assert(final_metas@ =~= concat_metas(children, 0));
    }
    for k in 0..n
        invariant
            children.len() == n,
            sequences@ == children,
            all_wf == (forall|i: int| 0 <= i < children.len() ==> (#[trigger] children[i]).wf()),
            all_cover == (forall|i: int|
                0 <= i < children.len() ==> (#[trigger] children[i]).covers()),
            combined == max_duration(children, k as int),
            final_metas@ == concat_metas(children, k as int),
            all_wf ==> forall|t: int|
                0 <= t < final_metas@.len() ==> (#[trigger] final_metas@[t]).fits(),
            all_cover ==> forall|t: int|
                0 <= t < final_metas@.len() ==> (#[trigger] final_metas@[t]).end_time_spec()
                    <= max_duration(children, k as int),
    {
        let child: &Sequence = &sequences[k];
        let m: usize = child.action_metas.len();
        for j in 0..m
            invariant
                children.len() == n,
                k < n,
                all_wf == (forall|i: int|
                    0 <= i < children.len() ==> (#[trigger] children[i]).wf()),
                all_cover == (forall|i: int|
                    0 <= i < children.len() ==> (#[trigger] children[i]).covers()),
                child == children[k as int],
                child.action_metas@.len() == m,
                final_metas@ == concat_metas(children, k as int) + child.action_metas@.subrange(
                    0,
                    j as int,
                ),
                all_wf ==> forall|t: int|
                    0 <= t < final_metas@.len() ==> (#[trigger] final_metas@[t]).fits(),
                all_cover ==> forall|t: int|
                    0 <= t < final_metas@.len() ==> (#[trigger] final_metas@[t]).end_time_spec()
                        <= max_duration(children, k as int + 1),
                all_cover ==> forall|t: int|
                    0 <= t < concat_metas(children, k as int).len() ==> (#[trigger] concat_metas(
                        children,
                        k as int,
                    )[t]).end_time_spec() <= max_duration(children, k as int),
        {
            final_metas.push(child.action_metas[j]);
            proof {
                assert(final_metas@ =~= concat_metas(children, k as int)
                    + child.action_metas@.subrange(0, j as int + 1));
            }
        }
        proof {
            assert(child.action_metas@.subrange(0, m as int) =~= child.action_metas@);
        }
        if child.duration > combined {
            combined = child.duration;
        }
    }
    Sequence { duration: combined, action_metas: final_metas }
}

/// Run all children at once and wait only for the first to finish: nothing
/// is shifted, every child's actions are present, and the combined duration
/// is the shortest child duration — the race is cut when its first runner
/// crosses the line. With no children at all the duration is `0`.
pub fn any(sequences: &[Sequence]) -> (r: Sequence)
    ensures
        r.duration == min_duration(sequences@, sequences@.len() as int),
        r.action_metas@ == concat_metas(sequences@, sequences@.len() as int),
        (forall|i: int| 0 <= i < sequences@.len() ==> (#[trigger] sequences@[i]).wf()) ==> r.wf(),
{
    let ghost children: Seq<Sequence> = sequences@;
    let ghost all_wf: bool = forall|i: int|
        0 <= i < children.len() ==> (#[trigger] children[i]).wf();
    let mut final_metas: Vec<ActionMeta> = Vec::new();
    let mut combined: u64 = 0;
    let n: usize = sequences.len();
    proof {
        assert(final_metas@ =~= concat_metas(children, 0));
    }
    for k in 0..n
        invariant
            children.len() == n,
            sequences@ == children,
            all_wf == (forall|i: int| 0 <= i < children.len() ==> (#[trigger] children[i]).wf()),
            combined == min_duration(children, k as int),
            final_metas@ == concat_metas(children, k as int),
            all_wf ==> forall|t: int|
                0 <= t < final_metas@.len() ==> (#[trigger] final_metas@[t]).fits(),
    {
        let child: &Sequence = &sequences[k];
        let m: usize = child.action_metas.len();
        for j in 0..m
            invariant
                children.len() == n,
                k < n,
                all_wf == (forall|i: int|
                    0 <= i < children.len() ==> (#[trigger] children[i]).wf()),
                child == children[k as int],
                child.action_metas@.len() == m,
                final_metas@ == concat_metas(children, k as int) + child.action_metas@.subrange(
                    0,
                    j as int,
                ),
                all_wf ==> forall|t: int|
                    0 <= t < final_metas@.len() ==> (#[trigger] final_metas@[t]).fits(),
        {
            final_metas.push(child.action_metas[j]);
            proof {
                assert(final_metas@ =~= concat_metas(children, k as int)
                    + child.action_metas@.subrange(0, j as int + 1));
            }
        }
        proof {
            assert(child.action_metas@.subrange(0, m as int) =~= child.action_metas@);
        }
        if k == 0 || child.duration < combined {
            combined = child.duration;
        }
    }
    Sequence { duration: combined, action_metas: final_metas }
}

/// The first `k` children's metadata under [`flow`]: child `i` is shifted by
/// `i * gap` ticks.
pub open spec fn flow_metas(seqs: Seq<Sequence>, gap: u64, k: int) -> Seq<ActionMeta>
    decreases k,
{
    if k <= 0 {
        Seq::<ActionMeta>::empty()
    } else {
        flow_metas(seqs, gap, k - 1) + shift_metas(seqs[k - 1].action_metas@, (k - 1) * gap)
    }
}

/// Combined duration of the first `k` children under [`flow`]: the largest
/// `i * gap + child duration`, `0` when there are none.
pub open spec fn flow_duration(seqs: Seq<Sequence>, gap: u64, k: int) -> int
    decreases k,
{
    if k <= 0 {
        0
    } else if (k - 1) * gap + seqs[k - 1].duration >= flow_duration(seqs, gap, k - 1) {
        (k - 1) * gap + seqs[k - 1].duration
    } else {
        flow_duration(seqs, gap, k - 1)
    }
}

/// Every staggered window stays inside the tick range.
pub open spec fn flow_fits(seqs: Seq<Sequence>, gap: u64) -> bool {
    &&& forall|i: int|
        0 <= i < seqs.len() ==> i * gap + (#[trigger] seqs[i]).duration <= u64::MAX
    &&& forall|i: int, j: int|
        #![trigger seqs[i].action_metas@[j]]
        0 <= i < seqs.len() && 0 <= j < seqs[i].action_metas@.len() ==> seqs[i].action_metas@[
            j
        ].end_time_spec() + i * gap <= u64::MAX
}

/// The staggered duration never decreases as children are added.
pub proof fn lemma_flow_duration_monotone(seqs: Seq<Sequence>, gap: u64, i: int, k: int)
    requires
        0 <= i <= k,
    ensures
        0 <= flow_duration(seqs, gap, i) <= flow_duration(seqs, gap, k),
    decreases k,
{
    if i < k {
        lemma_flow_duration_monotone(seqs, gap, i, k - 1);
        assert(0 <= (k - 1) * gap) by (nonlinear_arith)
            requires
                k >= 1,
        ;
    }
}

/// Run the children staggered: child `i` starts `i * gap` ticks in, so each
/// child begins a fixed delay after the one before it, overlapping freely.
/// The combined duration is the latest child end, `i * gap + duration`.
pub fn flow(gap: u64, sequences: &[Sequence]) -> (r: Sequence)
    requires
        flow_fits(sequences@, gap),
    ensures
        r.duration == flow_duration(sequences@, gap, sequences@.len() as int),
        r.action_metas@ == flow_metas(sequences@, gap, sequences@.len() as int),
        (forall|i: int| 0 <= i < sequences@.len() ==> (#[trigger] sequences@[i]).wf()) ==> r.wf(),
        (forall|i: int| 0 <= i < sequences@.len() ==> (#[trigger] sequences@[i]).covers())
            ==> r.covers(),
{
    let ghost children: Seq<Sequence> = sequences@;
    let ghost all_wf: bool = forall|i: int|
        0 <= i < children.len() ==> (#[trigger] children[i]).wf();
    let ghost all_cover: bool = forall|i: int|
        0 <= i < children.len() ==> (#[trigger] children[i]).covers();
    let mut final_metas: Vec<ActionMeta> = Vec::new();
    let mut flow_offset: u64 = 0;
    let mut final_duration: u64 = 0;
    let n: usize = sequences.len();
    proof {
        assert(final_metas@ =~= flow_metas(children, gap, 0));
    }
    for k in 0..n
        invariant
            flow_fits(children, gap),
            children.len() == n,
            sequences@ == children,
            all_wf == (forall|i: int| 0 <= i < children.len() ==> (#[trigger] children[i]).wf()),
            all_cover == (forall|i: int|
                0 <= i < children.len() ==> (#[trigger] children[i]).covers()),
            flow_offset == if k == 0 {
                0int
            } else {
                (k - 1) * gap
            },
            final_duration == flow_duration(children, gap, k as int),
            final_metas@ == flow_metas(children, gap, k as int),
            all_wf ==> forall|t: int|
                0 <= t < final_metas@.len() ==> (#[trigger] final_metas@[t]).fits(),
            all_cover ==> forall|t: int|
                0 <= t < final_metas@.len() ==> (#[trigger] final_metas@[t]).end_time_spec()
                    <= flow_duration(children, gap, k as int),
    {
        if k > 0 {
            proof {
                assert((k - 1) * gap + gap == k as int * gap) by (nonlinear_arith)
                    requires
                        k >= 1,
                ;
                assert(k as int * gap + children[k as int].duration <= u64::MAX);
                assert(0 <= (k - 1) * gap) by (nonlinear_arith)
                    requires
                        k >= 1,
                ;
            }
            flow_offset = flow_offset + gap;
        }
        let ghost off: int = k as int * gap;
        proof {
            assert(flow_offset == off) by (nonlinear_arith)
                requires
                    k == 0 ==> flow_offset == 0,
                    k >= 1 ==> flow_offset == (k - 1) * gap + gap,
                    off == k as int * gap,
            ;
            assert(0 <= off) by (nonlinear_arith)
                requires
                    off == k as int * gap,
                    k >= 0,
            ;
        }
        let child: &Sequence = &sequences[k];
        let m: usize = child.action_metas.len();
        for j in 0..m
            invariant
                flow_fits(children, gap),
                children.len() == n,
                k < n,
                all_wf == (forall|i: int|
                    0 <= i < children.len() ==> (#[trigger] children[i]).wf()),
                all_cover == (forall|i: int|
                    0 <= i < children.len() ==> (#[trigger] children[i]).covers()),
                child == children[k as int],
                child.action_metas@.len() == m,
                flow_offset == off,
                off == k as int * gap,
                0 <= off,
                final_metas@ == flow_metas(children, gap, k as int) + shift_metas(
                    child.action_metas@.subrange(0, j as int),
                    off,
                ),
                all_wf ==> forall|t: int|
                    0 <= t < final_metas@.len() ==> (#[trigger] final_metas@[t]).fits(),
                all_cover ==> forall|t: int|
                    0 <= t < final_metas@.len() ==> (#[trigger] final_metas@[t]).end_time_spec()
                        <= flow_duration(children, gap, k as int + 1),
                all_cover ==> forall|t: int|
                    0 <= t < flow_metas(children, gap, k as int).len() ==> (#[trigger] flow_metas(
                        children,
                        gap,
                        k as int,
                    )[t]).end_time_spec() <= flow_duration(children, gap, k as int),
        {
            let mut meta: ActionMeta = child.action_metas[j];
            proof {
                assert(meta.end_time_spec() + off <= u64::MAX);
                lemma_flow_duration_monotone(children, gap, k as int, k as int + 1);
            }
            meta.start_time = meta.start_time + flow_offset;
            final_metas.push(meta);
            proof {
                assert(final_metas@ =~= flow_metas(children, gap, k as int) + shift_metas(
                    child.action_metas@.subrange(0, j as int + 1),
                    off,
                ));
            }
        }
        proof {
            assert(child.action_metas@.subrange(0, m as int) =~= child.action_metas@);
            assert(flow_metas(children, gap, k as int + 1) == flow_metas(children, gap, k as int)
                + shift_metas(child.action_metas@, off));
            lemma_flow_duration_monotone(children, gap, k as int + 1, n as int);
        }
        let child_end: u64 = flow_offset + child.duration;
        if child_end > final_duration {
            final_duration = child_end;
        }
        proof {
            lemma_flow_duration_monotone(children, gap, k as int, k as int + 1);
        }
    }
    Sequence { duration: final_duration, action_metas: final_metas }
}

/// Run a sequence after a fixed delay: every window moves `delay_time` ticks
/// later and the duration grows by the same amount.
pub fn delay(delay_time: u64, sequence: &Sequence) -> (r: Sequence)
    requires
        sequence.duration + delay_time <= u64::MAX,
        forall|j: int|
            0 <= j < sequence.action_metas@.len() ==> (#[trigger] sequence.action_metas@[
                j
            ]).end_time_spec() + delay_time <= u64::MAX,
    ensures
        r.duration == sequence.duration + delay_time,
        r.action_metas@ == shift_metas(sequence.action_metas@, delay_time as int),
        r.wf(),
        sequence.covers() ==> r.covers(),
{
    let mut final_metas: Vec<ActionMeta> = Vec::new();
    let m: usize = sequence.action_metas.len();
    proof {
        assert(final_metas@ =~= shift_metas(sequence.action_metas@.subrange(0, 0), delay_time as int));
    }
    for j in 0..m
        invariant
            sequence.action_metas@.len() == m,
            sequence.duration + delay_time <= u64::MAX,
            forall|t: int|
                0 <= t < sequence.action_metas@.len() ==> (#[trigger] sequence.action_metas@[
                    t
                ]).end_time_spec() + delay_time <= u64::MAX,
            final_metas@ == shift_metas(
                sequence.action_metas@.subrange(0, j as int),
                delay_time as int,
            ),
            forall|t: int| 0 <= t < final_metas@.len() ==> (#[trigger] final_metas@[t]).fits(),
            sequence.covers() ==> forall|t: int|
                0 <= t < final_metas@.len() ==> (#[trigger] final_metas@[t]).end_time_spec()
                    <= sequence.duration + delay_time,
    {
        let mut meta: ActionMeta = sequence.action_metas[j];
        meta.start_time = meta.start_time + delay_time;
        final_metas.push(meta);
        proof {
            assert(final_metas@ =~= shift_metas(
                sequence.action_metas@.subrange(0, j as int + 1),
                delay_time as int,
            ));
        }
    }
    proof {
        assert(sequence.action_metas@.subrange(0, m as int) =~= sequence.action_metas@);
    }
    Sequence { duration: sequence.duration + delay_time, action_metas: final_metas }
}

} // verus!
