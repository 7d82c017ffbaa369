//! Motion builders: the producers of actions.
//!
//! A [`Motion`] tracks the running value of one object property. Each call
//! captures the running value as the new action's begin, the requested value
//! as its end, and advances the running value — so consecutive calls build
//! transitions that chain seamlessly, each starting where the previous one
//! ended. Only the builder's own running state is ever mutated; the actions
//! it hands out are immutable from birth.

use vstd::prelude::*;

use crate::action::Action;
use crate::action::Interp;
use crate::lerp::lanes_ok;
use crate::lerp::VALUE_LIMIT;

verus! {

/// An owned copy of a property value, lane for lane.
fn copy_lanes(v: &Vec<i64>) -> (r: Vec<i64>)
    ensures
        r@ == v@,
{
    let mut r: Vec<i64> = Vec::new();
    let n: usize = v.len();
    for i in 0..n
        invariant
            v@.len() == n,
            r@ == v@.subrange(0, i as int),
    {
        r.push(v[i]);
        proof {
            assert(r@ =~= v@.subrange(0, i as int + 1));
        }
    }
    proof {
        assert(v@.subrange(0, n as int) =~= v@);
    }
    r
}

/// Builder of property transitions for one target object: holds the
/// property's running value, which becomes the begin of the next action.
#[derive(Clone, Debug)]
pub struct Motion {
    /// Index of the object whose property this motion drives.
    pub target: usize,
    /// Where actions built here write their interpolated value.
    pub interp: Interp,
    /// Running property value: the begin of the next action built.
    pub value: Vec<i64>,
}

impl Motion {
    /// The running value stays inside the representable fixed-point range.
    pub open spec fn wf(self) -> bool {
        lanes_ok(self.value@)
    }

    /// Start tracking a property from its current value.
    pub fn new(target: usize, value: Vec<i64>, interp: Interp) -> (m: Motion)
        requires
            lanes_ok(value@),
        ensures
            m == (Motion { target, interp, value }),
            m.wf(),
    {
        Motion { target, interp, value }
    }

    /// Build the action that drives the property from its running value to
    /// `new_value`, and advance the running value to `new_value`.
    pub fn to(&mut self, new_value: Vec<i64>) -> (a: Action)
        requires
            old(self).wf(),
            lanes_ok(new_value@),
            new_value@.len() == old(self).value@.len(),
        ensures
            a.target == old(self).target,
            a.interp == old(self).interp,
            a.begin == old(self).value,
            a.end == new_value,
            a.wf(),
            final(self).target == old(self).target,
            final(self).interp == old(self).interp,
            final(self).value@ == new_value@,
            final(self).wf(),
    {
        let mut begin: Vec<i64> = copy_lanes(&new_value);
        core::mem::swap(&mut self.value, &mut begin);
        Action::new(self.target, begin, new_value, self.interp)
    }

    /// Build the action that moves the property by `delta`, lane for lane,
    /// from its running value, and advance the running value by the same
    /// amount.
    pub fn add(&mut self, delta: &Vec<i64>) -> (a: Action)
        requires
            old(self).wf(),
            delta@.len() == old(self).value@.len(),
            forall|i: int|
                0 <= i < delta@.len() ==> -VALUE_LIMIT <= old(self).value@[i] + (#[trigger] delta@[
                    i
                ]) <= VALUE_LIMIT,
        ensures
            a.target == old(self).target,
            a.interp == old(self).interp,
            a.begin == old(self).value,
            a.end@ == Seq::new(
                old(self).value@.len(),
                |i: int| (old(self).value@[i] + delta@[i]) as i64,
            ),
            a.wf(),
            final(self).target == old(self).target,
            final(self).interp == old(self).interp,
            final(self).value@ == a.end@,
            final(self).wf(),
    {
        let ghost moved: Seq<i64> = Seq::new(
            self.value@.len(),
            |i: int| (self.value@[i] + delta@[i]) as i64,
        );
        let mut end: Vec<i64> = Vec::new();
        let n: usize = delta.len();
        for i in 0..n
            invariant
                self.value@.len() == n,
                delta@.len() == n,
                forall|j: int|
                    0 <= j < n ==> -VALUE_LIMIT <= self.value@[j] + (#[trigger] delta@[j])
                        <= VALUE_LIMIT,
                moved == Seq::new(self.value@.len(), |j: int| (self.value@[j] + delta@[j]) as i64),
                end@ == moved.subrange(0, i as int),
        {
            end.push(self.value[i] + delta[i]);
            proof {
                assert(end@ =~= moved.subrange(0, i as int + 1));
            }
        }
        proof {
            assert(moved.subrange(0, n as int) =~= moved);
        }
        self.to(end)
    }
}

} // verus!
