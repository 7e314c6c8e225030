//! Per-atom, per-beam sample storage.
//!
//! Each atom carries one fixed-capacity array of [`BEAM_LIMIT`] slots for
//! every sampled quantity (intensity, intensity gradient, detuning, rate
//! coefficient, photon counts). Slot `i` belongs to the beam whose
//! [`BeamIndex`](crate::beam::BeamIndex) is `i`. The arrays are allocated once
//! when an atom is first seen and are overwritten in place every step; a slot
//! not backed by a live beam always holds a well-defined neutral value, and a
//! mask array records which slots are live so that later stages never read a
//! stale slot.

use vstd::prelude::*;
use crate::BEAM_LIMIT;
use crate::beam::BeamIndex;

verus! {

/// Fixed-capacity array holding one sample of type `T` per beam slot.
///
/// The capacity is always exactly [`BEAM_LIMIT`]; the array is created once
/// per atom and overwritten in place, never resized.
pub struct PerBeamSampleArray<T> {
    contents: Vec<T>,
}

impl<T> View for PerBeamSampleArray<T> {
    type V = Seq<T>;

    closed spec fn view(&self) -> Seq<T> {
        self.contents@
    }
}

impl<T> PerBeamSampleArray<T> {
    /// The array is well formed: it holds exactly one slot per possible beam.
    pub open spec fn wf(&self) -> bool {
        self@.len() == BEAM_LIMIT
    }

    /// Creates an array with every slot holding the neutral value.
    pub fn new(neutral: T) -> (r: Self) where T: Copy
        ensures
            r.wf(),
            forall|i: int| 0 <= i < BEAM_LIMIT ==> r@[i] == neutral,
    {
        let mut contents: Vec<T> = Vec::new();
        let mut k: usize = 0;
        while k < BEAM_LIMIT
            invariant
                k <= BEAM_LIMIT,
                contents@.len() == k,
                forall|i: int| 0 <= i < k ==> contents@[i] == neutral,
            decreases BEAM_LIMIT - k,
        {
            contents.push(neutral);
            k = k + 1;
        }
        PerBeamSampleArray { contents }
    }

    /// Reads the sample of the beam holding `slot`.
    pub fn get(&self, slot: usize) -> (r: &T)
        requires
            self.wf(),
            slot < BEAM_LIMIT,
        ensures
            *r == self@[slot as int],
    {
        &self.contents[slot]
    }

    /// Overwrites the sample of the beam holding `slot`, in place.
    pub fn set(&mut self, slot: usize, value: T)
        requires
            old(self).wf(),
            slot < BEAM_LIMIT,
        ensures
            final(self).wf(),
            final(self)@ == old(self)@.update(slot as int, value),
    {
        self.contents.set(slot, value);
    }

    /// Overwrites every slot with the neutral value, in place.
    pub fn reset(&mut self, neutral: T) where T: Copy
        requires
            old(self).wf(),
        ensures
            final(self).wf(),
            forall|i: int| 0 <= i < BEAM_LIMIT ==> final(self)@[i] == neutral,
    {
        let mut k: usize = 0;
        while k < BEAM_LIMIT
            invariant
                self.wf(),
                k <= BEAM_LIMIT,
                forall|i: int| 0 <= i < k ==> self@[i] == neutral,
            decreases BEAM_LIMIT - k,
        {
            self.contents.set(k, neutral);
            k = k + 1;
        }
    }
}

/// True on exactly the slots of `indices`: the mask the sampler stages leave
/// behind for one atom, given the slot assignments of the live beams.
pub open spec fn mask_matches(mask: Seq<bool>, indices: Seq<BeamIndex>) -> bool {
    forall|slot: int|
        0 <= slot < mask.len()
            ==> (mask[slot] <==> exists|j: int| 0 <= j < indices.len() && indices[j].index == slot)
}

/// Marks as live exactly the slots held by the currently indexed beams.
///
/// Slots of beams that no longer exist are cleared, so a later stage that
/// consults the mask can never pick up a stale sample.
pub fn fill_sampler_masks(mask: &mut PerBeamSampleArray<bool>, indices: &Vec<BeamIndex>)
    requires
        old(mask).wf(),
        forall|j: int| 0 <= j < indices@.len() ==> indices@[j].index < BEAM_LIMIT,
    ensures
        final(mask).wf(),
        mask_matches(final(mask)@, indices@),
{
    mask.reset(false);
    let n = indices.len();
    let mut j: usize = 0;
    while j < n
        invariant
            mask.wf(),
            n == indices@.len(),
            j <= n,
            forall|k: int| 0 <= k < n ==> indices@[k].index < BEAM_LIMIT,
            forall|slot: int|
                0 <= slot < BEAM_LIMIT
                    ==> (mask@[slot] <==> exists|k: int| 0 <= k < j && indices@[k].index == slot),
        decreases n - j,
    {
        let slot = indices[j].index;
        mask.set(slot, true);
        proof {
            assert(indices@[j as int].index == slot);
        }
        j = j + 1;
    }
}

/// The entities a stage visits when it needs two components: exactly those
/// rows of the store that carry both, in ascending row order.
///
/// Absence of a required component filters the entity out; it is never an
/// error, so heterogeneous entities can share the store with atoms.
pub fn intersection_join<A, B>(first: &Vec<Option<A>>, second: &Vec<Option<B>>) -> (r: Vec<
    usize,
>)
    requires
        first@.len() == second@.len(),
    ensures
        forall|k: int|
            0 <= k < r@.len()
                ==> (#[trigger] r@[k] as int) < first@.len() && first@[r@[k] as int] is Some
                    && second@[r@[k] as int] is Some,
        forall|k1: int, k2: int| 0 <= k1 < k2 < r@.len() ==> r@[k1] < r@[k2],
        forall|i: int|
            0 <= i < first@.len() && first@[i] is Some && second@[i] is Some
                ==> exists|k: int| 0 <= k < r@.len() && r@[k] as int == i,
{
    let n = first.len();
    let mut r: Vec<usize> = Vec::new();
    let mut i: usize = 0;
    while i < n
        invariant
            n == first@.len(),
            n == second@.len(),
            i <= n,
            forall|k: int|
                0 <= k < r@.len()
                    ==> (#[trigger] r@[k] as int) < i && first@[r@[k] as int] is Some
                        && second@[r@[k] as int] is Some,
            forall|k1: int, k2: int| 0 <= k1 < k2 < r@.len() ==> r@[k1] < r@[k2],
            forall|j: int|
                0 <= j < i && first@[j] is Some && second@[j] is Some
                    ==> exists|k: int| 0 <= k < r@.len() && r@[k] as int == j,
        decreases n - i,
    {
        if first[i].is_some() && second[i].is_some() {
            let ghost r_snap: Seq<usize> = r@;
            r.push(i);
            proof {
                assert(r@[r@.len() - 1] as int == i as int);
                assert forall|j: int| 0 <= j < i && first@[j] is Some && second@[j] is Some
                    implies exists|k: int| 0 <= k < r@.len() && r@[k] as int == j by {
                    let k = choose|k: int| 0 <= k < r_snap.len() && r_snap[k] as int == j;
                    assert(r@[k] as int == j);
                };
            }
        }
        i = i + 1;
    }
    r
}

/// Attaches the per-beam sample arrays to an atom when it is first observed
/// as newly created.
///
/// Every array starts with all [`BEAM_LIMIT`] slots holding the neutral value
/// of its quantity, and the mask starts with every slot dead, so a slot never
/// exposes undefined memory before its first sample is written.
pub struct AttachLaserComponentsToNewlyCreatedAtomsSystem;

impl AttachLaserComponentsToNewlyCreatedAtomsSystem {
    /// A fresh mask array: every slot dead.
    pub fn fresh_masks(&self) -> (r: PerBeamSampleArray<bool>)
        ensures
            r.wf(),
            forall|i: int| 0 <= i < BEAM_LIMIT ==> !r@[i],
    {
        PerBeamSampleArray::new(false)
    }

    /// A fresh sample array for one quantity: every slot neutral.
    pub fn fresh_samplers<T: Copy>(&self, neutral: T) -> (r: PerBeamSampleArray<T>)
        ensures
            r.wf(),
            forall|i: int| 0 <= i < BEAM_LIMIT ==> r@[i] == neutral,
    {
        PerBeamSampleArray::new(neutral)
    }
}

} // verus!
