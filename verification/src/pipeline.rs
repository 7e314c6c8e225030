//! The standard wiring of the optical-force pipeline.
//!
//! These builders register the pipeline's stages in a [`StageGraph`] with
//! the "depends-on" edges the physics requires: beams are indexed before
//! masks are filled and fields are sampled, detuning waits for indexing and
//! intensity sampling, the rate equations wait for detuning, photon
//! scattering waits for the rates, and force aggregation comes last. The
//! dispatcher that owns the actual systems binds each returned stage handle
//! to its system and runs the stages in a schedule of the graph.

use vstd::prelude::*;
use crate::schedule::StageGraph;
use crate::schedule::lemma_order_respects_dependency;

verus! {

/// Stage handles of the beam-indexing and field-sampling stages.
#[derive(Clone, Copy, Debug, PartialEq, Eq, Structural)]
pub struct LaserStages {
    /// Attaches the per-beam sample arrays to newly created atoms.
    pub attach_laser_components: usize,
    /// Attaches a default slot to new cooling beams.
    pub attach_cooling_index: usize,
    /// Assigns every cooling beam its slot for this step.
    pub index_cooling_lights: usize,
    /// Attaches a default slot to new dipole beams.
    pub attach_dipole_index: usize,
    /// Assigns every dipole beam its slot for this step.
    pub index_dipole_lights: usize,
    /// Resets every atom's sampler mask.
    pub initialise_laser_sampler_masks: usize,
    /// Marks the live cooling-beam slots in every atom's mask.
    pub fill_laser_sampler_masks: usize,
    /// Samples every cooling beam's intensity at every atom.
    pub sample_laser_intensity: usize,
    /// Samples every dipole beam's intensity gradient at every atom.
    pub sample_intensity_gradient: usize,
}

/// Stage handles of the per-beam physics stages built on the samples.
#[derive(Clone, Copy, Debug, PartialEq, Eq, Structural)]
pub struct PhysicsStages {
    /// Combines Doppler and Zeeman shifts into a detuning per beam slot.
    pub calculate_detuning: usize,
    /// Solves the coupled rate equations and the two-level population.
    pub calculate_rate_coefficients: usize,
    /// Produces expected and sampled photon counts per beam slot.
    pub calculate_photon_scattering: usize,
    /// Sums scattering and dipole-gradient forces into the atom's force.
    pub aggregate_forces: usize,
}

/// Registers the beam-indexing and sampling stages and their dependencies.
///
/// Every stage of this group additionally depends on each stage in `deps`,
/// and intensity sampling depends on the position-integration stage
/// `integrate_position`, which must already exist in the graph.
pub fn add_systems_to_dispatch(
    g: &mut StageGraph,
    deps: &Vec<usize>,
    integrate_position: usize,
) -> (r: LaserStages)
    requires
        old(g).wf(),
        forall|i: int| 0 <= i < deps@.len() ==> (#[trigger] deps@[i] as int) < old(g).stage_count(),
        (integrate_position as int) < old(g).stage_count(),
        old(g).stage_count() + 9 <= usize::MAX,
    ensures
        final(g).wf(),
        final(g).stage_count() == old(g).stage_count() + 9,
        r.attach_laser_components == old(g).stage_count(),
        r.attach_cooling_index == old(g).stage_count() + 1,
        r.index_cooling_lights == old(g).stage_count() + 2,
        r.attach_dipole_index == old(g).stage_count() + 3,
        r.index_dipole_lights == old(g).stage_count() + 4,
        r.initialise_laser_sampler_masks == old(g).stage_count() + 5,
        r.fill_laser_sampler_masks == old(g).stage_count() + 6,
        r.sample_laser_intensity == old(g).stage_count() + 7,
        r.sample_intensity_gradient == old(g).stage_count() + 8,
        final(g).deps().contains((r.attach_dipole_index, r.index_dipole_lights)),
        final(g).deps().contains((r.index_cooling_lights, r.fill_laser_sampler_masks)),
        final(g).deps().contains((r.initialise_laser_sampler_masks, r.fill_laser_sampler_masks)),
        final(g).deps().contains((r.index_cooling_lights, r.sample_laser_intensity)),
        final(g).deps().contains((integrate_position, r.sample_laser_intensity)),
        final(g).deps().contains((r.index_dipole_lights, r.sample_intensity_gradient)),
        forall|t: int|
            0 <= t < deps@.len() ==> {
                &&& final(g).deps().contains((#[trigger] deps@[t], r.attach_laser_components))
                &&& final(g).deps().contains((deps@[t], r.attach_cooling_index))
                &&& final(g).deps().contains((deps@[t], r.index_cooling_lights))
                &&& final(g).deps().contains((deps@[t], r.attach_dipole_index))
                &&& final(g).deps().contains((deps@[t], r.initialise_laser_sampler_masks))
            },
        final(g).deps().len() >= old(g).deps().len(),
        forall|e: int| 0 <= e < old(g).deps().len() ==> final(g).deps()[e] == old(g).deps()[e],
{
    let attach_laser_components = g.add_stage();
    let attach_cooling_index = g.add_stage();
    let index_cooling_lights = g.add_stage();
    let attach_dipole_index = g.add_stage();
    let index_dipole_lights = g.add_stage();
    let initialise_laser_sampler_masks = g.add_stage();
    let fill_laser_sampler_masks = g.add_stage();
    let sample_laser_intensity = g.add_stage();
    let sample_intensity_gradient = g.add_stage();
    g.add_dependency(attach_dipole_index, index_dipole_lights);
    g.add_dependency(index_cooling_lights, fill_laser_sampler_masks);
    g.add_dependency(initialise_laser_sampler_masks, fill_laser_sampler_masks);
    g.add_dependency(index_cooling_lights, sample_laser_intensity);
    g.add_dependency(integrate_position, sample_laser_intensity);
    g.add_dependency(index_dipole_lights, sample_intensity_gradient);
    let ghost base = g.deps();
    proof {
        let b0 = old(g).deps().len() as int;
        assert(base[b0 + 0] == (attach_dipole_index, index_dipole_lights));
        assert(base[b0 + 1] == (index_cooling_lights, fill_laser_sampler_masks));
        assert(base[b0 + 2] == (initialise_laser_sampler_masks, fill_laser_sampler_masks));
        assert(base[b0 + 3] == (index_cooling_lights, sample_laser_intensity));
        assert(base[b0 + 4] == (integrate_position, sample_laser_intensity));
        assert(base[b0 + 5] == (index_dipole_lights, sample_intensity_gradient));
        assert(base.contains((attach_dipole_index, index_dipole_lights)));
        assert(base.contains((index_cooling_lights, fill_laser_sampler_masks)));
        assert(base.contains((initialise_laser_sampler_masks, fill_laser_sampler_masks)));
        assert(base.contains((index_cooling_lights, sample_laser_intensity)));
        assert(base.contains((integrate_position, sample_laser_intensity)));
        assert(base.contains((index_dipole_lights, sample_intensity_gradient)));
    }
    let n = deps.len();
    let mut i: usize = 0;
    while i < n
        invariant
            g.wf(),
            n == deps@.len(),
            i <= n,
            g.stage_count() == old(g).stage_count() + 9,
            forall|t: int|
                0 <= t < deps@.len() ==> (#[trigger] deps@[t] as int) < old(g).stage_count(),
            attach_laser_components == old(g).stage_count(),
            attach_cooling_index == old(g).stage_count() + 1,
            index_cooling_lights == old(g).stage_count() + 2,
            attach_dipole_index == old(g).stage_count() + 3,
            initialise_laser_sampler_masks == old(g).stage_count() + 5,
            base.len() == old(g).deps().len() + 6,
            forall|e: int| 0 <= e < old(g).deps().len() ==> base[e] == old(g).deps()[e],
            g.deps().len() >= base.len(),
            forall|e: int| 0 <= e < base.len() ==> g.deps()[e] == base[e],
            forall|t: int|
                0 <= t < i ==> g.deps().contains(
                    (#[trigger] deps@[t], attach_laser_components),
                ) && g.deps().contains((deps@[t], attach_cooling_index)) && g.deps().contains(
                    (deps@[t], index_cooling_lights),
                ) && g.deps().contains((deps@[t], attach_dipole_index)) && g.deps().contains(
                    (deps@[t], initialise_laser_sampler_masks),
                ),
        decreases n - i,
    {
        let d = deps[i];
        let ghost pre = g.deps();
        g.add_dependency(d, attach_laser_components);
        g.add_dependency(d, attach_cooling_index);
        g.add_dependency(d, index_cooling_lights);
        g.add_dependency(d, attach_dipole_index);
        g.add_dependency(d, initialise_laser_sampler_masks);
        proof {
            assert(forall|e: int| 0 <= e < pre.len() ==> g.deps()[e] == pre[e]);
            assert(g.deps()[pre.len() as int + 0] == (d, attach_laser_components));
            assert(g.deps()[pre.len() as int + 1] == (d, attach_cooling_index));
            assert(g.deps()[pre.len() as int + 2] == (d, index_cooling_lights));
            assert(g.deps()[pre.len() as int + 3] == (d, attach_dipole_index));
            assert(g.deps()[pre.len() as int + 4] == (d, initialise_laser_sampler_masks));
            assert forall|t: int|
                0 <= t < i + 1 implies g.deps().contains(
                (#[trigger] deps@[t], attach_laser_components),
            ) && g.deps().contains((deps@[t], attach_cooling_index)) && g.deps().contains(
                (deps@[t], index_cooling_lights),
            ) && g.deps().contains((deps@[t], attach_dipole_index)) && g.deps().contains(
                (deps@[t], initialise_laser_sampler_masks),
            ) by {
                if t < i {
                    let k1 = choose|k: int|
                        0 <= k < pre.len() && pre[k] == (deps@[t], attach_laser_components);
                    assert(g.deps()[k1] == (deps@[t], attach_laser_components));
                    let k2 = choose|k: int|
                        0 <= k < pre.len() && pre[k] == (deps@[t], attach_cooling_index);
                    assert(g.deps()[k2] == (deps@[t], attach_cooling_index));
                    let k3 = choose|k: int|
                        0 <= k < pre.len() && pre[k] == (deps@[t], index_cooling_lights);
                    assert(g.deps()[k3] == (deps@[t], index_cooling_lights));
                    let k4 = choose|k: int|
                        0 <= k < pre.len() && pre[k] == (deps@[t], attach_dipole_index);
                    assert(g.deps()[k4] == (deps@[t], attach_dipole_index));
                    let k5 = choose|k: int|
                        0 <= k < pre.len() && pre[k] == (deps@[t], initialise_laser_sampler_masks);
                    assert(g.deps()[k5] == (deps@[t], initialise_laser_sampler_masks));
                } else {
                    assert(deps@[t] == d);
                }
            }
        }
        i = i + 1;
    }
    proof {
        let x1 = (attach_dipole_index, index_dipole_lights);
        let k1 = choose|k: int| 0 <= k < base.len() && base[k] == x1;
        assert(g.deps()[k1] == x1);
        let x2 = (index_cooling_lights, fill_laser_sampler_masks);
        let k2 = choose|k: int| 0 <= k < base.len() && base[k] == x2;
        assert(g.deps()[k2] == x2);
        let x3 = (initialise_laser_sampler_masks, fill_laser_sampler_masks);
        let k3 = choose|k: int| 0 <= k < base.len() && base[k] == x3;
        assert(g.deps()[k3] == x3);
        let x4 = (index_cooling_lights, sample_laser_intensity);
        let k4 = choose|k: int| 0 <= k < base.len() && base[k] == x4;
        assert(g.deps()[k4] == x4);
        let x5 = (integrate_position, sample_laser_intensity);
        let k5 = choose|k: int| 0 <= k < base.len() && base[k] == x5;
        assert(g.deps()[k5] == x5);
        let x6 = (index_dipole_lights, sample_intensity_gradient);
        let k6 = choose|k: int| 0 <= k < base.len() && base[k] == x6;
        assert(g.deps()[k6] == x6);
        assert forall|e: int|
            0 <= e < old(g).deps().len() implies g.deps()[e] == old(g).deps()[e] by {
            assert(g.deps()[e] == base[e]);
            assert(base[e] == old(g).deps()[e]);
        }
    }
    LaserStages {
        attach_laser_components,
        attach_cooling_index,
        index_cooling_lights,
        attach_dipole_index,
        index_dipole_lights,
        initialise_laser_sampler_masks,
        fill_laser_sampler_masks,
        sample_laser_intensity,
        sample_intensity_gradient,
    }
}

/// Registers the physics stages on top of the sampling stages.
///
/// Detuning waits for beam indexing and intensity sampling; the rate
/// equations wait for detuning and the intensities; photon scattering waits
/// for the rates; force aggregation waits for photon scattering and the
/// sampled intensity gradients.
pub fn add_physics_systems_to_dispatch(g: &mut StageGraph, laser: &LaserStages) -> (r:
    PhysicsStages)
    requires
        old(g).wf(),
        (laser.index_cooling_lights as int) < old(g).stage_count(),
        (laser.sample_laser_intensity as int) < old(g).stage_count(),
        (laser.index_dipole_lights as int) < old(g).stage_count(),
        (laser.sample_intensity_gradient as int) < old(g).stage_count(),
        old(g).stage_count() + 4 <= usize::MAX,
    ensures
        final(g).wf(),
        final(g).stage_count() == old(g).stage_count() + 4,
        r.calculate_detuning == old(g).stage_count(),
        r.calculate_rate_coefficients == old(g).stage_count() + 1,
        r.calculate_photon_scattering == old(g).stage_count() + 2,
        r.aggregate_forces == old(g).stage_count() + 3,
        final(g).deps().contains((laser.index_cooling_lights, r.calculate_detuning)),
        final(g).deps().contains((laser.sample_laser_intensity, r.calculate_detuning)),
        final(g).deps().contains((r.calculate_detuning, r.calculate_rate_coefficients)),
        final(g).deps().contains((laser.sample_laser_intensity, r.calculate_rate_coefficients)),
        final(g).deps().contains((r.calculate_rate_coefficients, r.calculate_photon_scattering)),
        final(g).deps().contains((r.calculate_photon_scattering, r.aggregate_forces)),
        final(g).deps().contains((laser.sample_intensity_gradient, r.aggregate_forces)),
        final(g).deps().len() >= old(g).deps().len(),
        forall|e: int| 0 <= e < old(g).deps().len() ==> final(g).deps()[e] == old(g).deps()[e],
{
    let calculate_detuning = g.add_stage();
    let calculate_rate_coefficients = g.add_stage();
    let calculate_photon_scattering = g.add_stage();
    let aggregate_forces = g.add_stage();
    g.add_dependency(laser.index_cooling_lights, calculate_detuning);
    g.add_dependency(laser.sample_laser_intensity, calculate_detuning);
    g.add_dependency(calculate_detuning, calculate_rate_coefficients);
    g.add_dependency(laser.sample_laser_intensity, calculate_rate_coefficients);
    g.add_dependency(calculate_rate_coefficients, calculate_photon_scattering);
    g.add_dependency(calculate_photon_scattering, aggregate_forces);
    g.add_dependency(laser.sample_intensity_gradient, aggregate_forces);
    proof {
        let b0 = old(g).deps().len() as int;
        assert(g.deps()[b0 + 0] == (laser.index_cooling_lights, calculate_detuning));
        assert(g.deps()[b0 + 1] == (laser.sample_laser_intensity, calculate_detuning));
        assert(g.deps()[b0 + 2] == (calculate_detuning, calculate_rate_coefficients));
        assert(g.deps()[b0 + 3] == (laser.sample_laser_intensity, calculate_rate_coefficients));
        assert(g.deps()[b0 + 4] == (calculate_rate_coefficients, calculate_photon_scattering));
        assert(g.deps()[b0 + 5] == (calculate_photon_scattering, aggregate_forces));
        assert(g.deps()[b0 + 6] == (laser.sample_intensity_gradient, aggregate_forces));
    }
    PhysicsStages {
        calculate_detuning,
        calculate_rate_coefficients,
        calculate_photon_scattering,
        aggregate_forces,
    }
}

/// Stage-ordering guarantee for the detuning stage: in every admissible
/// order of a graph wired with the pipeline's dependencies, the detuning
/// stage stands strictly after both the beam-indexing stage and the
/// intensity-sampling stage, so it never observes a beam index or an
/// intensity sample before those stages have completed for the same step.
pub proof fn lemma_detuning_runs_after_indexing_and_sampling(
    g: &StageGraph,
    o: Seq<usize>,
    laser: LaserStages,
    phys: PhysicsStages,
    k_index: int,
    k_intensity: int,
    k_detuning: int,
)
    requires
        g.deps().contains((laser.index_cooling_lights, phys.calculate_detuning)),
        g.deps().contains((laser.sample_laser_intensity, phys.calculate_detuning)),
        g.is_valid_order(o),
        0 <= k_index < o.len(),
        0 <= k_intensity < o.len(),
        0 <= k_detuning < o.len(),
        o[k_index] == laser.index_cooling_lights,
        o[k_intensity] == laser.sample_laser_intensity,
        o[k_detuning] == phys.calculate_detuning,
    ensures
        k_index < k_detuning,
        k_intensity < k_detuning,
{
    lemma_order_respects_dependency(
        g,
        o,
        laser.index_cooling_lights,
        phys.calculate_detuning,
        k_index,
        k_detuning,
    );
    lemma_order_respects_dependency(
        g,
        o,
        laser.sample_laser_intensity,
        phys.calculate_detuning,
        k_intensity,
        k_detuning,
    );
}

/// Force aggregation is the sink of the pipeline: in every admissible order
/// of a graph wired with the pipeline's dependencies, it stands strictly
/// after photon scattering and after gradient sampling, so every force term
/// it sums was produced in the same step.
pub proof fn lemma_aggregation_runs_last(
    g: &StageGraph,
    o: Seq<usize>,
    laser: LaserStages,
    phys: PhysicsStages,
    k_scatter: int,
    k_gradient: int,
    k_aggregate: int,
)
    requires
        g.deps().contains((phys.calculate_photon_scattering, phys.aggregate_forces)),
        g.deps().contains((laser.sample_intensity_gradient, phys.aggregate_forces)),
        g.is_valid_order(o),
        0 <= k_scatter < o.len(),
        0 <= k_gradient < o.len(),
        0 <= k_aggregate < o.len(),
        o[k_scatter] == phys.calculate_photon_scattering,
        o[k_gradient] == laser.sample_intensity_gradient,
        o[k_aggregate] == phys.aggregate_forces,
    ensures
        k_scatter < k_aggregate,
        k_gradient < k_aggregate,
{
    lemma_order_respects_dependency(
        g,
        o,
        phys.calculate_photon_scattering,
        phys.aggregate_forces,
        k_scatter,
        k_aggregate,
    );
    lemma_order_respects_dependency(
        g,
        o,
        laser.sample_intensity_gradient,
        phys.aggregate_forces,
        k_gradient,
        k_aggregate,
    );
}

} // verus!
