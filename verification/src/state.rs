//! State vectors: fixed-length tuples of binary64 patterns.
//!
//! The integrator core sees a state as a plain `Vec<u64>` of components. A
//! named-field aggregate such as [`StateVector`] joins in through the two
//! adapter functions that list its fields and rebuild it from a list.

use vstd::prelude::*;
use crate::binary64::ZERO;
use crate::binary64::abs;
use crate::binary64::abs_of;
use crate::binary64::at_most;
use crate::binary64::finite;
use crate::binary64::is_finite;
use crate::binary64::is_nan;
use crate::binary64::le;
use crate::binary64::nan;

verus! {

/// A position and a velocity in three dimensions, field by field.
#[derive(Clone, Copy, Debug)]
pub struct StateVector<T> {
    pub x: T,
    pub y: T,
    pub z: T,
    pub vx: T,
    pub vy: T,
    pub vz: T,
}

/// Number of components of a [`StateVector`].
pub const PHASE_DIMENSION: usize = 6;

/// Every component is an ordinary number: no NaN and no infinity.
pub open spec fn all_finite(v: Seq<u64>) -> bool {
    forall|i: int| 0 <= i < v.len() ==> finite(#[trigger] v[i])
}

/// The components of `s` in the order x, y, z, vx, vy, vz.
pub open spec fn components_of(s: StateVector<u64>) -> Seq<u64> {
    seq![s.x, s.y, s.z, s.vx, s.vy, s.vz]
}

impl StateVector<u64> {
    /// Lists the fields as a component vector.
    pub fn components(&self) -> (v: Vec<u64>)
        ensures
            v@ == components_of(*self),
    {
        let mut v: Vec<u64> = Vec::new();
        v.push(self.x);
        v.push(self.y);
        v.push(self.z);
        v.push(self.vx);
        v.push(self.vy);
        v.push(self.vz);
        v
    }

    /// Rebuilds the aggregate from a component vector; `None` unless there
    /// are exactly six components.
    pub fn from_components(v: &Vec<u64>) -> (r: Option<StateVector<u64>>)
        ensures
            r.is_some() <==> v@.len() == PHASE_DIMENSION,
            r matches Some(s) ==> components_of(s) == v@,
    {
        if v.len() != PHASE_DIMENSION {
            return None;
        }
        Some(StateVector { x: v[0], y: v[1], z: v[2], vx: v[3], vy: v[4], vz: v[5] })
    }
}

/// Two aggregates with the same component list are the same aggregate.
pub proof fn lemma_components_determine_state(s: StateVector<u64>, t: StateVector<u64>)
    requires
        components_of(s) == components_of(t),
    ensures
        s == t,
{
    let a = components_of(s);
    let b = components_of(t);
    assert(a[0] == b[0] && a[1] == b[1] && a[2] == b[2]);
    assert(a[3] == b[3] && a[4] == b[4] && a[5] == b[5]);
}

/// Whether every component of `v` is finite.
pub fn is_all_finite(v: &Vec<u64>) -> (r: bool)
    ensures
        r == all_finite(v@),
{
    let mut i: usize = 0;
    while i < v.len()
        invariant
            i <= v.len(),
            forall|j: int| 0 <= j < i ==> finite(#[trigger] v@[j]),
        decreases v.len() - i,
    {
        if !is_finite(v[i]) {
            return false;
        }
        i += 1;
    }
    true
}

/// No component is NaN.
pub open spec fn all_numbers(v: Seq<u64>) -> bool {
    forall|i: int| 0 <= i < v.len() ==> !nan(#[trigger] v[i])
}

/// `m` is the maximum norm of `v`: the largest absolute value among the
/// components, and zero of no components at all.
pub open spec fn is_max_norm(v: Seq<u64>, m: u64) -> bool {
    &&& forall|i: int| 0 <= i < v.len() ==> at_most(abs_of(#[trigger] v[i]), m)
    &&& v.len() == 0 ==> m == ZERO
    &&& v.len() > 0 ==> exists|i: int| 0 <= i < v.len() && m == abs_of(#[trigger] v[i])
}

/// The maximum norm of `v`, found by comparisons alone; a NaN if some
/// component is NaN.
pub fn max_norm(v: &Vec<u64>) -> (m: u64)
    ensures
        all_numbers(v@) ==> is_max_norm(v@, m),
        !all_numbers(v@) ==> nan(m),
{
    let mut m: u64 = ZERO;
    let mut i: usize = 0;
    while i < v.len()
        invariant
            i <= v.len(),
            !nan(m),
            forall|j: int| 0 <= j < i ==> !nan(#[trigger] v@[j]),
            forall|j: int| 0 <= j < i ==> at_most(abs_of(#[trigger] v@[j]), m),
            i == 0 ==> m == ZERO,
            i > 0 ==> exists|j: int| 0 <= j < i && m == abs_of(#[trigger] v@[j]),
        decreases v.len() - i,
    {
        let c = v[i];
        if is_nan(c) {
            return c;
        }
        let a = abs(c);
        if i == 0 || !le(a, m) {
            proof {
                assert forall|j: int| 0 <= j < i implies at_most(abs_of(#[trigger] v@[j]), a) by {
                    assert(at_most(abs_of(v@[j]), m));
                }
            }
            m = a;
        }
        assert(m == abs_of(v@[i as int]) || exists|j: int| 0 <= j < i && m == abs_of(#[trigger] v@[j]));
        i += 1;
    }
    m
}

/// A fresh vector with the same components as `v`.
pub fn copy_components(v: &Vec<u64>) -> (r: Vec<u64>)
    ensures
        r@ == v@,
{
    let mut r: Vec<u64> = Vec::new();
    let mut i: usize = 0;
    while i < v.len()
        invariant
            i <= v.len(),
            r@ == v@.subrange(0, i as int),
        decreases v.len() - i,
    {
        r.push(v[i]);
        assert(r@ =~= v@.subrange(0, i + 1));
        i += 1;
    }
    assert(v@.subrange(0, v@.len() as int) =~= v@);
    r
}

} // verus!
