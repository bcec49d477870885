//! The record of a solution: accepted samples in the order they were taken.

use vstd::prelude::*;
use crate::binary64::at_most;
use crate::binary64::below;
use crate::binary64::finite;
use crate::binary64::is_finite;
use crate::binary64::is_nan;
use crate::binary64::le;
use crate::binary64::lt;
use crate::binary64::nan;
use crate::distance::distance;
use crate::distance::is_no_farther;

verus! {

/// One sample of the solution: a time and the state at that time.
#[derive(Clone, Debug)]
pub struct SolutionPoint {
    pub t: u64,
    pub y: Vec<u64>,
}

/// `a` comes strictly earlier than `b` along the direction of integration.
pub open spec fn precedes(forward: bool, a: u64, b: u64) -> bool {
    if forward {
        below(a, b)
    } else {
        below(b, a)
    }
}

/// `a` comes no later than `b` along the direction of integration.
pub open spec fn not_after(forward: bool, a: u64, b: u64) -> bool {
    if forward {
        at_most(a, b)
    } else {
        at_most(b, a)
    }
}

/// Every time is finite, and each comes strictly earlier than all that
/// follow it.
pub open spec fn ordered(forward: bool, times: Seq<u64>) -> bool {
    &&& forall|i: int| 0 <= i < times.len() ==> finite(#[trigger] times[i])
    &&& forall|i: int, j: int|
        0 <= i < j < times.len() ==> precedes(forward, #[trigger] times[i], #[trigger] times[j])
}

/// Decides [`precedes`].
pub fn comes_before(forward: bool, a: u64, b: u64) -> (r: bool)
    ensures
        r == precedes(forward, a, b),
{
    if forward {
        lt(a, b)
    } else {
        lt(b, a)
    }
}

/// Decides [`not_after`].
pub fn comes_no_later(forward: bool, a: u64, b: u64) -> (r: bool)
    ensures
        r == not_after(forward, a, b),
{
    if forward {
        le(a, b)
    } else {
        le(b, a)
    }
}

/// What a trajectory is, mathematically: a direction and two sequences of
/// equal length, the sample times and the sample states.
pub struct TrajectoryView {
    pub forward: bool,
    pub times: Seq<u64>,
    pub states: Seq<Seq<u64>>,
}

impl TrajectoryView {
    /// As many states as times, and the times [`ordered`].
    pub open spec fn wf(self) -> bool {
        self.times.len() == self.states.len() && ordered(self.forward, self.times)
    }

    /// The trajectory with one more sample at its end.
    pub open spec fn push(self, t: u64, y: Seq<u64>) -> TrajectoryView {
        TrajectoryView {
            forward: self.forward,
            times: self.times.push(t),
            states: self.states.push(y),
        }
    }

    /// `t` may be appended: it is finite and comes after the last sample.
    pub open spec fn admits(self, t: u64) -> bool {
        finite(t) && (self.times.len() > 0 ==> precedes(self.forward, self.times.last(), t))
    }

    /// `i` is the last sample taken no later than `t`.
    pub open spec fn is_floor(self, t: u64, i: int) -> bool {
        &&& 0 <= i < self.times.len()
        &&& not_after(self.forward, self.times[i], t)
        &&& forall|j: int| i < j < self.times.len() ==> precedes(self.forward, t, #[trigger] self.times[j])
    }

    /// `i` is the sample nearest in time to `t`, and among two equally near
    /// the one taken first.
    pub open spec fn is_nearest(self, t: u64, i: int) -> bool {
        &&& 0 <= i < self.times.len()
        &&& forall|j: int|
            0 <= j < self.times.len() ==> distance(t, self.times[i]) <= distance(
                t,
                #[trigger] self.times[j],
            )
        &&& forall|j: int|
            0 <= j < i ==> distance(t, self.times[i]) < distance(t, #[trigger] self.times[j])
    }

    /// No sample was taken at or before `t`.
    pub open spec fn none_by(self, t: u64) -> bool {
        forall|j: int| 0 <= j < self.times.len() ==> !not_after(self.forward, #[trigger] self.times[j], t)
    }
}

/// An append-only sequence of samples whose times run strictly in the
/// direction of integration.
#[derive(Clone, Debug)]
pub struct Trajectory {
    forward: bool,
    points: Vec<SolutionPoint>,
}

impl View for Trajectory {
    type V = TrajectoryView;

    closed spec fn view(&self) -> TrajectoryView {
        TrajectoryView {
            forward: self.forward,
            times: Seq::new(self.points@.len(), |i: int| self.points@[i].t),
            states: Seq::new(self.points@.len(), |i: int| self.points@[i].y@),
        }
    }
}

impl Trajectory {
    /// The invariant of the type: see [`TrajectoryView::wf`].
    pub open spec fn wf(&self) -> bool {
        self@.wf()
    }

    /// An empty trajectory for the given direction.
    pub fn new(forward: bool) -> (r: Trajectory)
        ensures
            r.wf(),
            r@.forward == forward,
            r@.times.len() == 0,
    {
        Trajectory { forward, points: Vec::new() }
    }

    /// Whether times run upward.
    pub fn is_forward(&self) -> (r: bool)
        ensures
            r == self@.forward,
    {
        self.forward
    }

    /// Number of samples.
    pub fn len(&self) -> (n: usize)
        ensures
            n == self@.times.len(),
    {
        self.points.len()
    }

    /// Whether there is no sample yet.
    pub fn is_empty(&self) -> (r: bool)
        ensures
            r == (self@.times.len() == 0),
    {
        self.points.len() == 0
    }

    /// Appends the sample `(t, y)` if `t` is finite and comes after the last
    /// sample; otherwise leaves the trajectory as it is. Says which.
    pub fn push(&mut self, t: u64, y: Vec<u64>) -> (appended: bool)
        requires
            old(self).wf(),
        ensures
            final(self).wf(),
            appended == old(self)@.admits(t),
            appended ==> final(self)@ == old(self)@.push(t, y@),
            !appended ==> final(self)@ == old(self)@,
    {
        let n = self.points.len();
        let admitted = is_finite(t) && (n == 0 || comes_before(self.forward, self.points[n - 1].t, t));
        if admitted {
            self.points.push(SolutionPoint { t, y });
            proof {
                let before = old(self)@;
                let after = self@;
                assert(after.times =~= before.times.push(t));
                assert(after.states =~= before.states.push(y@));
                assert forall|i: int, j: int| 0 <= i < j < after.times.len() implies precedes(
                    after.forward,
                    #[trigger] after.times[i],
                    #[trigger] after.times[j],
                ) by {
                    if j == n && i < n - 1 {
                        assert(precedes(before.forward, before.times[i], before.times[n - 1]));
                    }
                }
            }
        }
        admitted
    }

    /// The sample at index `i`, counted from the first; `None` past the end.
    pub fn get(&self, i: usize) -> (r: Option<&SolutionPoint>)
        ensures
            r.is_some() <==> i < self@.times.len(),
            r matches Some(p) ==> p.t == self@.times[i as int] && p.y@ == self@.states[i as int],
    {
        if i < self.points.len() {
            Some(&self.points[i])
        } else {
            None
        }
    }

    /// The earliest sample; `None` when empty.
    pub fn first(&self) -> (r: Option<&SolutionPoint>)
        ensures
            r.is_some() <==> self@.times.len() > 0,
            r matches Some(p) ==> p.t == self@.times[0] && p.y@ == self@.states[0],
    {
        self.get(0)
    }

    /// The latest sample; `None` when empty.
    pub fn last(&self) -> (r: Option<&SolutionPoint>)
        ensures
            r.is_some() <==> self@.times.len() > 0,
            r matches Some(p) ==> p.t == self@.times.last() && p.y@ == self@.states.last(),
    {
        let n = self.points.len();
        if n == 0 {
            None
        } else {
            Some(&self.points[n - 1])
        }
    }

    /// Index of the last sample taken no later than `t`: the left end of the
    /// segment that holds `t`. `None` when `t` is NaN or lies before every
    /// sample.
    pub fn locate(&self, t: u64) -> (r: Option<usize>)
        requires
            self.wf(),
        ensures
            r.is_none() <==> self@.none_by(t),
            r matches Some(i) ==> self@.is_floor(t, i as int),
    {
        let mut lo: usize = 0;
        let mut hi: usize = self.points.len();
        while lo < hi
            invariant
                self.wf(),
                lo <= hi <= self.points@.len(),
                forall|j: int| 0 <= j < lo ==> not_after(self@.forward, #[trigger] self@.times[j], t),
                forall|j: int|
                    hi <= j < self@.times.len() ==> !not_after(
                        self@.forward,
                        #[trigger] self@.times[j],
                        t,
                    ),
                !nan(t) ==> forall|j: int|
                    hi <= j < self@.times.len() ==> precedes(
                        self@.forward,
                        t,
                        #[trigger] self@.times[j],
                    ),
            decreases hi - lo,
        {
            let mid = lo + (hi - lo) / 2;
            let reached = comes_no_later(self.forward, self.points[mid].t, t);
            proof {
                let v = self@;
                assert(v.times[mid as int] == self.points@[mid as int].t);
                if reached {
                    assert forall|j: int| 0 <= j < mid + 1 implies not_after(
                        v.forward,
                        #[trigger] v.times[j],
                        t,
                    ) by {
                        if j < mid {
                            assert(precedes(v.forward, v.times[j], v.times[mid as int]));
                        }
                    }
                } else {
                    assert forall|j: int| mid <= j < v.times.len() implies !not_after(
                        v.forward,
                        #[trigger] v.times[j],
                        t,
                    ) by {
                        if mid < j {
                            assert(precedes(v.forward, v.times[mid as int], v.times[j]));
                        }
                    }
                    if !nan(t) {
                        assert forall|j: int| mid <= j < v.times.len() implies precedes(
                            v.forward,
                            t,
                            #[trigger] v.times[j],
                        ) by {
                            assert(finite(v.times[j]));
                        }
                    }
                }
            }
            if reached {
                lo = mid + 1;
            } else {
                hi = mid;
            }
        }
        if lo == 0 {
            None
        } else {
            proof {
                assert(not_after(self@.forward, self@.times[lo - 1], t));
            }
            Some(lo - 1)
        }
    }
}

impl Trajectory {
    /// Index of the sample nearest in time to `t`, distances taken exactly;
    /// of two samples equally near, the one taken first. `None` when there
    /// is no sample or `t` is NaN.
    pub fn nearest(&self, t: u64) -> (r: Option<usize>)
        requires
            self.wf(),
        ensures
            r.is_some() <==> self@.times.len() > 0 && !nan(t),
            r matches Some(i) ==> self@.is_nearest(t, i as int),
    {
        let n = self.points.len();
        if n == 0 || is_nan(t) {
            return None;
        }
        let ghost v = self@;
        match self.locate(t) {
            None => {
                proof {
                    assert forall|j: int| 0 <= j < v.times.len() implies distance(t, v.times[0])
                        <= distance(t, #[trigger] v.times[j]) by {
                        assert(!not_after(v.forward, v.times[j], t));
                        assert(!not_after(v.forward, v.times[0], t));
                        if 0 < j {
                            assert(precedes(v.forward, v.times[0], v.times[j]));
                        }
                    }
                }
                Some(0)
            },
            Some(i) => {
                if i + 1 == n {
                    proof {
                        assert forall|j: int| 0 <= j < v.times.len() implies distance(
                            t,
                            v.times[i as int],
                        ) <= distance(t, #[trigger] v.times[j]) && (j < i ==> distance(
                            t,
                            v.times[i as int],
                        ) < distance(t, v.times[j])) by {
                            if j < i {
                                assert(precedes(v.forward, v.times[j], v.times[i as int]));
                            }
                        }
                    }
                    return Some(i);
                }
                let a = self.points[i].t;
                let b = self.points[i + 1].t;
                let stay = is_no_farther(t, a, b);
                proof {
                    assert(a == v.times[i as int] && b == v.times[i + 1]);
                    assert(precedes(v.forward, t, b));
                    assert forall|j: int| 0 <= j < v.times.len() implies (j <= i ==> distance(t, a)
                        <= distance(t, #[trigger] v.times[j])) && (j < i ==> distance(t, a)
                        < distance(t, v.times[j])) && (j > i ==> distance(t, b) <= distance(
                        t,
                        v.times[j],
                    )) by {
                        if j < i {
                            assert(precedes(v.forward, v.times[j], v.times[i as int]));
                        }
                        if j > i + 1 {
                            assert(precedes(v.forward, v.times[i + 1], v.times[j]));
                            assert(precedes(v.forward, t, v.times[j]));
                        }
                    }
                }
                if stay {
                    Some(i)
                } else {
                    Some(i + 1)
                }
            },
        }
    }
}

/// At most one index is the nearest sample to `t`: what `nearest` returns
/// is determined by the trajectory and `t`.
pub proof fn lemma_nearest_unique(v: TrajectoryView, t: u64, i: int, j: int)
    requires
        v.is_nearest(t, i),
        v.is_nearest(t, j),
    ensures
        i == j,
{
    if i < j {
        assert(distance(t, v.times[j]) < distance(t, v.times[i]));
    } else if j < i {
        assert(distance(t, v.times[i]) < distance(t, v.times[j]));
    }
}

/// Sample times of a forward trajectory are strictly increasing, those of a
/// backward trajectory strictly decreasing.
pub proof fn lemma_times_strictly_monotone(v: TrajectoryView, i: int, j: int)
    requires
        v.wf(),
        0 <= i < j < v.times.len(),
    ensures
        v.forward ==> below(v.times[i], v.times[j]),
        !v.forward ==> below(v.times[j], v.times[i]),
{
    assert(precedes(v.forward, v.times[i], v.times[j]));
}

/// At most one index is the floor of `t`: what `locate` returns is
/// determined by the trajectory and `t`.
pub proof fn lemma_floor_unique(v: TrajectoryView, t: u64, i: int, j: int)
    requires
        v.wf(),
        v.is_floor(t, i),
        v.is_floor(t, j),
    ensures
        i == j,
{
    if i < j {
        assert(precedes(v.forward, t, v.times[j]));
    } else if j < i {
        assert(precedes(v.forward, t, v.times[i]));
    }
}

/// A floor exists exactly when some sample was taken no later than `t`.
pub proof fn lemma_floor_excludes_none(v: TrajectoryView, t: u64, i: int)
    requires
        v.is_floor(t, i),
    ensures
        !v.none_by(t),
{
    assert(not_after(v.forward, v.times[i], t));
}

} // verus!
