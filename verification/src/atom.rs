//! Atom-entity markers and the per-step force reset.

use vstd::prelude::*;

verus! {

/// Marker distinguishing atom entities from other rows of the entity store
/// (laser beams, inert massive bodies) that may share kinematic components.
pub struct Atom;

/// Resets every atom's force accumulator at the start of a simulation step.
///
/// The force pipeline is purely additive; this leaf stage is the only one
/// allowed to overwrite the accumulator, and it must run before any stage of
/// the pipeline contributes to it.
pub struct ClearForceSystem;

impl ClearForceSystem {
    /// Overwrites every entry of a force store with the zero value, in place.
    pub fn run<T: Copy>(&self, forces: &mut Vec<T>, zero: T)
        ensures
            final(forces)@.len() == old(forces)@.len(),
            forall|i: int| 0 <= i < final(forces)@.len() ==> final(forces)@[i] == zero,
    {
        let n = forces.len();
        let mut k: usize = 0;
        while k < n
            invariant
                n == forces@.len(),
                k <= n,
                forall|i: int| 0 <= i < k ==> forces@[i] == zero,
            decreases n - k,
        {
            forces.set(k, zero);
            k = k + 1;
        }
    }
}

} // verus!
