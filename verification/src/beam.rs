//! Beam-slot assignment.
//!
//! Every live laser beam of one kind is assigned a stable slot in
//! `[0, BEAM_LIMIT)` that addresses the per-atom sample arrays. The slot is a
//! pure function of the set of live beam identities: a beam's slot is the
//! number of live beams with a smaller identity, so repeated runs over the
//! same beam set reproduce the same assignment. Exceeding [`BEAM_LIMIT`]
//! is a fatal configuration error, never a silent truncation.

use vstd::prelude::*;
use crate::BEAM_LIMIT;

verus! {

/// Slot assignment of one live beam.
#[derive(Clone, Copy, Debug, PartialEq, Eq, Structural)]
pub struct BeamIndex {
    /// Slot in `[0, BEAM_LIMIT)` addressing the per-atom sample arrays.
    pub index: usize,
    /// True once the indexer has assigned `index` during the current step.
    pub initiated: bool,
}

impl Default for BeamIndex {
    /// The state of a beam before the indexer has run: slot 0, unassigned.
    fn default() -> (r: Self)
        ensures
            r.index == 0,
            !r.initiated,
    {
        BeamIndex { index: 0, initiated: false }
    }
}

/// Fatal error raised when more beams of one kind are live than the per-atom
/// sample arrays have slots.
#[derive(Clone, Copy, Debug, PartialEq, Eq, Structural)]
pub struct BeamOverflowError {
    /// Number of live beams that were submitted for indexing.
    pub beam_count: usize,
    /// The capacity that was exceeded, always [`BEAM_LIMIT`].
    pub limit: usize,
}

/// Number of entries of `ids` strictly below `x`.
pub open spec fn count_less(ids: Seq<u64>, x: u64) -> int
    decreases ids.len(),
{
    if ids.len() == 0 {
        0
    } else {
        count_less(ids.drop_last(), x) + if ids.last() < x { 1int } else { 0int }
    }
}

/// `slots` is the assignment the indexer owes for the beam list `ids`:
/// one slot per beam, each the rank of the beam's identity within the list.
pub open spec fn valid_assignment(ids: Seq<u64>, slots: Seq<BeamIndex>) -> bool {
    &&& slots.len() == ids.len()
    &&& forall|i: int| 0 <= i < slots.len() ==> slots[i].index == count_less(ids, ids[i])
    &&& forall|i: int| 0 <= i < slots.len() ==> slots[i].initiated
}

proof fn lemma_count_less_total(ids: Seq<u64>, x: u64)
    ensures
        0 <= count_less(ids, x) <= ids.len(),
    decreases ids.len(),
{
    if ids.len() > 0 {
        lemma_count_less_total(ids.drop_last(), x);
    }
}

proof fn lemma_count_less_elem(ids: Seq<u64>, i: int)
    requires
        0 <= i < ids.len(),
    ensures
        count_less(ids, ids[i]) < ids.len(),
    decreases ids.len(),
{
    let d = ids.drop_last();
    if i == ids.len() - 1 {
        lemma_count_less_total(d, ids[i]);
    } else {
        lemma_count_less_elem(d, i);
    }
}

proof fn lemma_count_less_mono(ids: Seq<u64>, x: u64, y: u64)
    requires
        x <= y,
    ensures
        count_less(ids, x) <= count_less(ids, y),
    decreases ids.len(),
{
    if ids.len() > 0 {
        lemma_count_less_mono(ids.drop_last(), x, y);
    }
}

proof fn lemma_count_less_strict(ids: Seq<u64>, i: int, y: u64)
    requires
        0 <= i < ids.len(),
        ids[i] < y,
    ensures
        count_less(ids, ids[i]) < count_less(ids, y),
    decreases ids.len(),
{
    let d = ids.drop_last();
    if i == ids.len() - 1 {
        lemma_count_less_mono(d, ids[i], y);
    } else {
        lemma_count_less_strict(d, i, y);
    }
}

proof fn lemma_count_less_remove(ids: Seq<u64>, i: int, x: u64)
    requires
        0 <= i < ids.len(),
    ensures
        count_less(ids.remove(i), x) == count_less(ids, x) - (if ids[i] < x {
            1int
        } else {
            0int
        }),
    decreases ids.len(),
{
    if i == ids.len() - 1 {
        assert(ids.remove(i) =~= ids.drop_last());
    } else {
        assert(ids.remove(i).drop_last() =~= ids.drop_last().remove(i));
        assert(ids.remove(i).last() == ids.last());
        lemma_count_less_remove(ids.drop_last(), i, x);
    }
}

proof fn lemma_count_less_permutation(ids1: Seq<u64>, ids2: Seq<u64>, x: u64)
    requires
        ids1.to_multiset() == ids2.to_multiset(),
    ensures
        count_less(ids1, x) == count_less(ids2, x),
    decreases ids1.len(),
{
    broadcast use vstd::seq_lib::group_to_multiset_ensures;

    if ids1.len() == 0 {
        assert(ids1.to_multiset().len() == ids1.len());
        assert(ids2.to_multiset().len() == ids2.len());
        assert(ids2.len() == 0);
    } else {
        let v = ids1.last();
        let dl = ids1.drop_last();
        assert(ids1 =~= dl.push(v));
        assert(ids1.to_multiset() =~= dl.to_multiset().insert(v));
        assert(ids2.to_multiset().count(v) > 0);
        assert(ids2.contains(v));
        let i = choose|i: int| 0 <= i < ids2.len() && ids2[i] == v;
        let rest = ids2.remove(i);
        assert(rest.to_multiset() =~= ids2.to_multiset().remove(v));
        assert(dl.to_multiset() =~= rest.to_multiset()) by {
            assert forall|a: u64|
                dl.to_multiset().count(a) == rest.to_multiset().count(a) by {
                assert(dl.to_multiset().insert(v).count(a) == ids2.to_multiset().count(a));
            }
        }
        lemma_count_less_permutation(dl, rest, x);
        lemma_count_less_remove(ids2, i, x);
    }
}

/// Slot assignment is a pure function of the beam set: when the same beams
/// are listed in two different orders, each beam still receives the same
/// slot, so iteration order cannot change the physics.
pub proof fn lemma_assignment_order_independent(
    ids1: Seq<u64>,
    ids2: Seq<u64>,
    slots1: Seq<BeamIndex>,
    slots2: Seq<BeamIndex>,
    i1: int,
    i2: int,
)
    requires
        ids1.to_multiset() == ids2.to_multiset(),
        valid_assignment(ids1, slots1),
        valid_assignment(ids2, slots2),
        0 <= i1 < ids1.len(),
        0 <= i2 < ids2.len(),
        ids1[i1] == ids2[i2],
    ensures
        slots1[i1] == slots2[i2],
{
    lemma_count_less_permutation(ids1, ids2, ids1[i1]);
}

/// Distinct beams receive distinct slots.
pub proof fn lemma_assignment_unique(ids: Seq<u64>, slots: Seq<BeamIndex>, i: int, j: int)
    requires
        valid_assignment(ids, slots),
        0 <= i < slots.len(),
        0 <= j < slots.len(),
        i != j,
        ids[i] != ids[j],
    ensures
        slots[i].index != slots[j].index,
{
    if ids[i] < ids[j] {
        lemma_count_less_strict(ids, i, ids[j]);
    } else {
        lemma_count_less_strict(ids, j, ids[i]);
    }
}

/// Slot assignment is deterministic: any two assignments that are valid for
/// the same beam list are identical, so re-running the indexer over an
/// unchanged beam set reproduces the very same slots.
pub proof fn lemma_assignment_deterministic(ids: Seq<u64>, s1: Seq<BeamIndex>, s2: Seq<BeamIndex>)
    requires
        valid_assignment(ids, s1),
        valid_assignment(ids, s2),
    ensures
        s1 == s2,
{
    assert forall|i: int| 0 <= i < s1.len() implies s1[i] == s2[i] by {
        assert(s1[i].index == count_less(ids, ids[i]));
        assert(s2[i].index == count_less(ids, ids[i]));
        assert(s1[i].initiated && s2[i].initiated);
    }
    assert(s1 =~= s2);
}

/// Assigns each live beam of one kind its slot for the current step.
///
/// `beam_ids` lists the stable identities of the live beams, one entry per
/// beam, in any order; a beam's slot is the number of live beams with a
/// smaller identity. Slots are unique and fill `[0, beam_count)` exactly.
/// When the beam count exceeds [`BEAM_LIMIT`], no assignment is produced and
/// the overflow is reported as a fatal error instead.
pub fn index_beams(beam_ids: &Vec<u64>) -> (r: Result<Vec<BeamIndex>, BeamOverflowError>)
    requires
        forall|i: int, j: int|
            0 <= i < j < beam_ids@.len() ==> beam_ids@[i] != beam_ids@[j],
    ensures
        match r {
            Ok(slots) => {
                &&& beam_ids@.len() <= BEAM_LIMIT
                &&& valid_assignment(beam_ids@, slots@)
                &&& forall|i: int| 0 <= i < slots@.len() ==> slots@[i].index < beam_ids@.len()
                &&& forall|i: int, j: int|
                    0 <= i < j < slots@.len() ==> slots@[i].index != slots@[j].index
            },
            Err(e) => {
                &&& beam_ids@.len() > BEAM_LIMIT
                &&& e.beam_count == beam_ids@.len()
                &&& e.limit == BEAM_LIMIT
            },
        },
{
    let n = beam_ids.len();
    if n > BEAM_LIMIT {
        return Err(BeamOverflowError { beam_count: n, limit: BEAM_LIMIT });
    }
    let mut slots: Vec<BeamIndex> = Vec::new();
    let mut i: usize = 0;
    while i < n
        invariant
            n == beam_ids@.len(),
            i <= n,
            slots@.len() == i,
            forall|k: int| 0 <= k < i ==> slots@[k].index == count_less(beam_ids@, beam_ids@[k]),
            forall|k: int| 0 <= k < i ==> slots@[k].initiated,
        decreases n - i,
    {
        let x = beam_ids[i];
        let mut cnt: usize = 0;
        let mut j: usize = 0;
        while j < n
            invariant
                n == beam_ids@.len(),
                j <= n,
                cnt <= j,
                x == beam_ids@[i as int],
                cnt == count_less(beam_ids@.take(j as int), x),
            decreases n - j,
        {
            proof {
                assert(beam_ids@.take(j + 1).drop_last() =~= beam_ids@.take(j as int));
                assert(beam_ids@.take(j + 1).last() == beam_ids@[j as int]);
            }
            if beam_ids[j] < x {
                cnt = cnt + 1;
            }
            j = j + 1;
        }
        proof {
            assert(beam_ids@.take(n as int) =~= beam_ids@);
        }
        slots.push(BeamIndex { index: cnt, initiated: true });
        i = i + 1;
    }
    proof {
        assert forall|k: int| 0 <= k < slots@.len() implies slots@[k].index < beam_ids@.len() by {
            lemma_count_less_elem(beam_ids@, k);
        }
        assert forall|a: int, b: int|
            0 <= a < b < slots@.len() implies slots@[a].index != slots@[b].index by {
            lemma_assignment_unique(beam_ids@, slots@, a, b);
        }
    }
    Ok(slots)
}

/// The complete slot assignment a step runs with: one slot per live cooling
/// beam and one per live dipole beam.
#[derive(Debug)]
pub struct StepBeamAssignments {
    /// Slot of each cooling beam, in the order the beams were listed.
    pub cooling_slots: Vec<BeamIndex>,
    /// Slot of each dipole beam, in the order the beams were listed.
    pub dipole_slots: Vec<BeamIndex>,
}

/// Assigns the slots of every beam kind for one step, or aborts the step.
///
/// A step either receives a complete, valid assignment for both beam kinds
/// or the fatal overflow error of the first kind that exceeds its slots; in
/// the latter case no assignment exists, no stage runs, and no force is
/// written for the step.
pub fn assign_step_beams(cooling_ids: &Vec<u64>, dipole_ids: &Vec<u64>) -> (r: Result<
    StepBeamAssignments,
    BeamOverflowError,
>)
    requires
        forall|i: int, j: int|
            0 <= i < j < cooling_ids@.len() ==> cooling_ids@[i] != cooling_ids@[j],
        forall|i: int, j: int|
            0 <= i < j < dipole_ids@.len() ==> dipole_ids@[i] != dipole_ids@[j],
    ensures
        match r {
            Ok(p) => {
                &&& cooling_ids@.len() <= BEAM_LIMIT
                &&& dipole_ids@.len() <= BEAM_LIMIT
                &&& valid_assignment(cooling_ids@, p.cooling_slots@)
                &&& valid_assignment(dipole_ids@, p.dipole_slots@)
            },
            Err(e) => {
                &&& (cooling_ids@.len() > BEAM_LIMIT || dipole_ids@.len() > BEAM_LIMIT)
                &&& e.limit == BEAM_LIMIT
                &&& e.beam_count == if cooling_ids@.len() > BEAM_LIMIT {
                    cooling_ids@.len()
                } else {
                    dipole_ids@.len()
                }
            },
        },
{
    let cooling_slots = match index_beams(cooling_ids) {
        Ok(slots) => slots,
        Err(e) => {
            return Err(e);
        },
    };
    let dipole_slots = match index_beams(dipole_ids) {
        Ok(slots) => slots,
        Err(e) => {
            return Err(e);
        },
    };
    Ok(StepBeamAssignments { cooling_slots, dipole_slots })
}

} // verus!
