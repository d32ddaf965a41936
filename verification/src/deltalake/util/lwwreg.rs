//! A last-write-wins register.

use vstd::prelude::*;
use vstd::std_specs::cmp::{PartialEqIs, PartialEqSpec, PartialOrdIs, PartialOrdSpec};

verus! {

/// A value together with the marker under which it was written.
///
/// Of two writes the one with the greater marker stays. Markers are expected to grow
/// monotonically and to be used once: [`LWWReg::validate_update`] tells when a marker is
/// reused for another value.
#[derive(Debug, Clone, PartialEq, Eq, Hash)]
pub struct LWWReg<V, M> {
    /// The value of the latest write seen so far.
    pub val: V,
    /// The marker of that write.
    pub marker: M,
}

/// The reasons for which an update is not valid.
#[derive(Debug, PartialEq, Eq, Clone, Copy, Structural)]
pub enum Validation {
    /// The marker was already used for a different value.
    ConflictingMarker,
}

impl Validation {
    /// A sentence for the user.
    pub fn description(&self) -> (text: &'static str)
        ensures
            text@ == "A marker must be used exactly once, re-using the same marker breaks associativity"@,
    {
        match self {
            Validation::ConflictingMarker =>
                "A marker must be used exactly once, re-using the same marker breaks associativity",
        }
    }
}

/// The register after a write of `val` under `marker`.
pub open spec fn written<V, M: PartialOrd>(reg: LWWReg<V, M>, val: V, marker: M) -> LWWReg<V, M> {
    if reg.marker.is_lt(&marker) {
        LWWReg { val, marker }
    } else {
        reg
    }
}

impl<V: Default, M: Default> Default for LWWReg<V, M> {
    fn default() -> (reg: Self)
        ensures
            call_ensures(V::default, (), reg.val),
            call_ensures(M::default, (), reg.marker),
    {
        LWWReg { val: V::default(), marker: M::default() }
    }
}

impl<V: PartialEq, M: Ord> LWWReg<V, M> {
    /// A register that holds `val`, written under `marker`.
    pub fn new(val: V, marker: M) -> (reg: Self)
        ensures
            reg == (LWWReg { val, marker }),
    {
        LWWReg { val, marker }
    }

    /// Writes `val` under `marker`: it stays if `marker` is greater than the marker held so
    /// far, and nothing happens otherwise.
    pub fn update(&mut self, val: V, marker: M)
        ensures
            *final(self) == *old(self) || *final(self) == (LWWReg { val, marker }),
            M::obeys_partial_cmp_spec() ==> *final(self) == written(*old(self), val, marker),
    {
        if self.marker < marker {
            self.val = val;
            self.marker = marker;
        }
    }

    /// An update is not valid if its marker is the one held by the register and its value is
    /// not.
    pub fn validate_update(&self, val: &V, marker: &M) -> (result: Result<(), Validation>)
        ensures
            M::obeys_eq_spec() && V::obeys_eq_spec() ==> (result is Err <==> self.marker.is_eq(marker)
                && val.is_ne(&self.val)),
            result is Err ==> result == Err::<(), Validation>(Validation::ConflictingMarker),
    {
        if &self.marker == marker && val != &self.val {
            Err(Validation::ConflictingMarker)
        } else {
            Ok(())
        }
    }
}

/// Writing the same value under the same marker twice is writing it once.
pub proof fn update_is_idempotent<V, M: Ord>(reg: LWWReg<V, M>, val: V, marker: M)
    requires
        vstd::laws_cmp::obeys_cmp::<M>(),
    ensures
        written(written(reg, val, marker), val, marker) == written(reg, val, marker),
{
    reveal(vstd::laws_cmp::obeys_partial_cmp_spec_properties);
}

/// Two writes under different markers give the same register in either order. So do two
/// equal writes.
pub proof fn updates_commute<V, M: Ord>(
    reg: LWWReg<V, M>,
    val1: V,
    marker1: M,
    val2: V,
    marker2: M,
)
    requires
        vstd::laws_cmp::obeys_cmp::<M>(),
        marker1.is_eq(&marker2) ==> val1 == val2 && marker1 == marker2,
    ensures
        written(written(reg, val1, marker1), val2, marker2) == written(
            written(reg, val2, marker2),
            val1,
            marker1,
        ),
{
    reveal(vstd::laws_cmp::obeys_partial_cmp_spec_properties);
    reveal(vstd::laws_cmp::obeys_cmp_partial_ord);
    reveal(vstd::laws_cmp::obeys_cmp_ord);
}

/// The marker of a register never goes back, and it never ends below that of a write.
pub proof fn update_moves_the_marker_forward<V, M: Ord>(reg: LWWReg<V, M>, val: V, marker: M)
    requires
        vstd::laws_cmp::obeys_cmp::<M>(),
    ensures
        !written(reg, val, marker).marker.is_lt(&reg.marker),
        !written(reg, val, marker).marker.is_lt(&marker),
{
    reveal(vstd::laws_cmp::obeys_partial_cmp_spec_properties);
    reveal(vstd::laws_eq::obeys_eq_spec_properties);
}

/// A write under the marker that the register already holds changes nothing, whether or not
/// it passes [`LWWReg::validate_update`].
pub proof fn update_under_a_used_marker_is_a_no_op<V, M: Ord>(reg: LWWReg<V, M>, val: V, marker: M)
    requires
        vstd::laws_cmp::obeys_cmp::<M>(),
        reg.marker.is_eq(&marker),
    ensures
        written(reg, val, marker) == reg,
{
    reveal(vstd::laws_cmp::obeys_partial_cmp_spec_properties);
}

} // verus!
