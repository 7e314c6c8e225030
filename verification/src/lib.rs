//! Verified core of a beam-indexed optical-force pipeline.
//!
//! A simulation step combines, for every atom, the contributions of a bounded
//! number of laser beams. Each live beam is assigned a small integer slot, and
//! per-atom fixed-capacity arrays hold one sample per slot (intensity,
//! detuning, photon counts, and so on). This crate verifies the structural
//! rules of that pipeline: slot assignment and overflow detection, the
//! per-beam sample arrays and their masks, the selection of live slots during
//! force aggregation, the stage dependency graph and its schedule, and the
//! seeded stream used to sample scattered-photon counts.
//!
//! The floating-point field formulas themselves (intensity profiles, rate
//! equations, force magnitudes) are evaluated by the surrounding, unverified
//! simulation code on top of the slots, masks and schedules proved here.

use vstd::prelude::*;

pub mod atom;
pub mod beam;
pub mod dipole;
pub mod pipeline;
pub mod sampler;
pub mod scatter;
pub mod schedule;

verus! {

/// Upper bound on the number of simultaneously live beams of one kind.
///
/// Per-atom sample arrays hold exactly this many slots; the beam indexer
/// reports an overflow error when more beams than this are live at once.
pub const BEAM_LIMIT: usize = 16;

} // verus!
