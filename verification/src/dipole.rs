//! Slot selection for the force-aggregation stage.
//!
//! The aggregation stage sums per-beam momentum-transfer and dipole-gradient
//! contributions into the atom's force accumulator. It must visit exactly the
//! slots backed by a currently live beam: visiting a dead slot would leak a
//! stale sample into the force, and skipping a live slot would silently drop
//! a beam's physics. This module isolates that visiting rule; the
//! floating-point force formula itself is applied to the gathered samples by
//! the surrounding simulation code.

use vstd::prelude::*;
use crate::BEAM_LIMIT;
use crate::sampler::PerBeamSampleArray;

verus! {

/// Aggregates the dipole-beam force contributions of one atom.
///
/// For each live dipole beam, the closed-form gradient formula turns the
/// sampled intensity gradient of that beam's slot into a force term; the
/// terms are summed into the atom's force. The verified core selects which
/// slots enter the sum: exactly the live ones, in ascending slot order, and
/// none at all when no beam is live, so that an atom with zero live beams
/// receives exactly zero force contribution from this stage.
pub struct ApplyDipoleForceSystem;

impl ApplyDipoleForceSystem {
    /// The slots the aggregation visits: exactly the live ones, ascending.
    pub fn contributing_slots(&self, mask: &PerBeamSampleArray<bool>) -> (r: Vec<usize>)
        requires
            mask.wf(),
        ensures
            forall|k: int| 0 <= k < r@.len() ==> r@[k] < BEAM_LIMIT && mask@[r@[k] as int],
            forall|k1: int, k2: int| 0 <= k1 < k2 < r@.len() ==> r@[k1] < r@[k2],
            forall|slot: int|
                0 <= slot < BEAM_LIMIT && mask@[slot]
                    ==> exists|k: int| 0 <= k < r@.len() && r@[k] == slot,
            (forall|slot: int| 0 <= slot < BEAM_LIMIT ==> !mask@[slot]) ==> r@.len() == 0,
    {
        let mut r: Vec<usize> = Vec::new();
        let mut slot: usize = 0;
        while slot < BEAM_LIMIT
            invariant
                mask.wf(),
                slot <= BEAM_LIMIT,
                forall|k: int| 0 <= k < r@.len() ==> r@[k] < slot && mask@[r@[k] as int],
                forall|k1: int, k2: int| 0 <= k1 < k2 < r@.len() ==> r@[k1] < r@[k2],
                forall|s: int|
                    0 <= s < slot && mask@[s]
                        ==> exists|k: int| 0 <= k < r@.len() && r@[k] == s,
            decreases BEAM_LIMIT - slot,
        {
            if *mask.get(slot) {
                let ghost r_snap: Seq<usize> = r@;
                r.push(slot);
                proof {
                    assert(r@[r@.len() - 1] == slot);
                    assert forall|s: int| 0 <= s < slot && mask@[s]
                        implies exists|k: int| 0 <= k < r@.len() && r@[k] == s by {
                        let k = choose|k: int| 0 <= k < r_snap.len() && r_snap[k] == s;
                        assert(r@[k] == s);
                    };
                }
            }
            slot = slot + 1;
        }
        proof {
            if r@.len() > 0 {
                assert(mask@[r@[0] as int]);
            }
        }
        r
    }

    /// Gathers the samples that enter the force sum of one atom.
    ///
    /// Returns one `(slot, sample)` pair per live beam, in ascending slot
    /// order; dead slots contribute nothing. With zero live beams the result
    /// is empty, so the force contribution of this stage is exactly zero.
    pub fn gather_contributions<T: Copy>(
        &self,
        samples: &PerBeamSampleArray<T>,
        mask: &PerBeamSampleArray<bool>,
    ) -> (r: Vec<(usize, T)>)
        requires
            samples.wf(),
            mask.wf(),
        ensures
            forall|k: int|
                0 <= k < r@.len()
                    ==> r@[k].0 < BEAM_LIMIT && mask@[r@[k].0 as int]
                        && r@[k].1 == samples@[r@[k].0 as int],
            forall|k1: int, k2: int| 0 <= k1 < k2 < r@.len() ==> r@[k1].0 < r@[k2].0,
            forall|slot: int|
                0 <= slot < BEAM_LIMIT && mask@[slot]
                    ==> exists|k: int| 0 <= k < r@.len() && r@[k].0 == slot,
            (forall|slot: int| 0 <= slot < BEAM_LIMIT ==> !mask@[slot]) ==> r@.len() == 0,
    {
        let mut r: Vec<(usize, T)> = Vec::new();
        let mut slot: usize = 0;
        while slot < BEAM_LIMIT
            invariant
                samples.wf(),
                mask.wf(),
                slot <= BEAM_LIMIT,
                forall|k: int|
                    0 <= k < r@.len()
                        ==> r@[k].0 < slot && mask@[r@[k].0 as int]
                            && r@[k].1 == samples@[r@[k].0 as int],
                forall|k1: int, k2: int| 0 <= k1 < k2 < r@.len() ==> r@[k1].0 < r@[k2].0,
                forall|s: int|
                    0 <= s < slot && mask@[s]
                        ==> exists|k: int| 0 <= k < r@.len() && r@[k].0 == s,
            decreases BEAM_LIMIT - slot,
        {
            if *mask.get(slot) {
                let sample = *samples.get(slot);
                let ghost r_snap: Seq<(usize, T)> = r@;
                r.push((slot, sample));
                proof {
                    assert(r@[r@.len() - 1].0 == slot);
                    assert forall|s: int| 0 <= s < slot && mask@[s]
                        implies exists|k: int| 0 <= k < r@.len() && r@[k].0 == s by {
                        let k = choose|k: int| 0 <= k < r_snap.len() && r_snap[k].0 == s;
                        assert(r@[k].0 == s);
                    };
                }
            }
            slot = slot + 1;
        }
        proof {
            if r@.len() > 0 {
                assert(mask@[r@[0].0 as int]);
            }
        }
        r
    }
}

} // verus!
