use beam_pipeline::BEAM_LIMIT;
use beam_pipeline::atom::ClearForceSystem;
use beam_pipeline::beam::BeamIndex;
use beam_pipeline::dipole::ApplyDipoleForceSystem;
use beam_pipeline::sampler::{
    fill_sampler_masks, intersection_join, AttachLaserComponentsToNewlyCreatedAtomsSystem,
    PerBeamSampleArray,
};

#[test]
fn test_sample_array_starts_neutral() {
    let arr: PerBeamSampleArray<f64> = PerBeamSampleArray::new(0.0);
    for slot in 0..BEAM_LIMIT {
        assert_eq!(*arr.get(slot), 0.0);
    }
}

#[test]
fn test_sample_array_set_and_get() {
    let mut arr: PerBeamSampleArray<i64> = PerBeamSampleArray::new(-1);
    arr.set(3, 42);
    arr.set(0, 7);
    assert_eq!(*arr.get(0), 7);
    assert_eq!(*arr.get(3), 42);
    assert_eq!(*arr.get(1), -1);
    assert_eq!(*arr.get(BEAM_LIMIT - 1), -1);
}

#[test]
fn test_sample_array_reset_overwrites_in_place() {
    let mut arr: PerBeamSampleArray<u32> = PerBeamSampleArray::new(5);
    arr.set(2, 9);
    arr.reset(0);
    for slot in 0..BEAM_LIMIT {
        assert_eq!(*arr.get(slot), 0);
    }
}

#[test]
fn test_attach_system_fresh_arrays() {
    let attach = AttachLaserComponentsToNewlyCreatedAtomsSystem;
    let masks = attach.fresh_masks();
    for slot in 0..BEAM_LIMIT {
        assert!(!*masks.get(slot));
    }
    let samplers = attach.fresh_samplers((0.0f64, 0.0f64, 0.0f64));
    for slot in 0..BEAM_LIMIT {
        assert_eq!(*samplers.get(slot), (0.0, 0.0, 0.0));
    }
}

#[test]
fn test_fill_sampler_masks_marks_live_slots() {
    let attach = AttachLaserComponentsToNewlyCreatedAtomsSystem;
    let mut masks = attach.fresh_masks();
    // A stale live slot from the previous step must be cleared again.
    masks.set(5, true);
    let indices = vec![
        BeamIndex { index: 3, initiated: true },
        BeamIndex { index: 0, initiated: true },
    ];
    fill_sampler_masks(&mut masks, &indices);
    for slot in 0..BEAM_LIMIT {
        let live = slot == 0 || slot == 3;
        assert_eq!(*masks.get(slot), live);
    }
}

#[test]
fn test_clear_force_system_zeroes_all() {
    let clear = ClearForceSystem;
    let mut forces: Vec<(f64, f64, f64)> = vec![(1.0, -2.0, 3.5), (0.25, 0.0, -1.0)];
    clear.run(&mut forces, (0.0, 0.0, 0.0));
    assert_eq!(forces.len(), 2);
    for f in &forces {
        assert_eq!(*f, (0.0, 0.0, 0.0));
    }
}

#[test]
fn test_intersection_join_filters_missing_components() {
    // Entity 1 has no position, entity 2 has no sampler array: both are
    // filtered out, not reported as errors.
    let positions: Vec<Option<(f64, f64, f64)>> =
        vec![Some((0.0, 0.0, 0.0)), None, Some((1.0, 0.0, 0.0)), Some((2.0, 0.0, 0.0))];
    let samplers: Vec<Option<u8>> = vec![Some(0), Some(1), None, Some(3)];
    assert_eq!(intersection_join(&positions, &samplers), vec![0, 3]);
}

#[test]
fn test_intersection_join_empty_store() {
    let positions: Vec<Option<u8>> = Vec::new();
    let velocities: Vec<Option<u8>> = Vec::new();
    assert!(intersection_join(&positions, &velocities).is_empty());
}

#[test]
fn test_contributing_slots_visits_only_live() {
    let attach = AttachLaserComponentsToNewlyCreatedAtomsSystem;
    let mut masks = attach.fresh_masks();
    masks.set(1, true);
    masks.set(4, true);
    masks.set(9, true);
    let system = ApplyDipoleForceSystem;
    let slots = system.contributing_slots(&masks);
    assert_eq!(slots, vec![1, 4, 9]);
}

#[test]
fn test_gather_contributions_pairs_live_samples() {
    let attach = AttachLaserComponentsToNewlyCreatedAtomsSystem;
    let mut masks = attach.fresh_masks();
    masks.set(1, true);
    masks.set(3, true);
    // Gradient samples as sampled by the intensity-gradient stage.
    let mut gradients: PerBeamSampleArray<(f64, f64, f64)> =
        PerBeamSampleArray::new((0.0, 0.0, 0.0));
    gradients.set(1, (0.0, 1.0, -2.0));
    gradients.set(3, (4.0, 0.5, 0.0));
    gradients.set(6, (9.0, 9.0, 9.0));  // dead slot: must not leak into the sum
    let system = ApplyDipoleForceSystem;
    let contributions = system.gather_contributions(&gradients, &masks);
    assert_eq!(
        contributions,
        vec![(1, (0.0, 1.0, -2.0)), (3, (4.0, 0.5, 0.0))]
    );
}

#[test]
fn test_gather_contributions_zero_live_beams_is_empty() {
    let attach = AttachLaserComponentsToNewlyCreatedAtomsSystem;
    let masks = attach.fresh_masks();
    let gradients: PerBeamSampleArray<(f64, f64, f64)> = PerBeamSampleArray::new((1.0, 2.0, 3.0));
    let system = ApplyDipoleForceSystem;
    let contributions = system.gather_contributions(&gradients, &masks);
    assert!(contributions.is_empty());
    assert!(system.contributing_slots(&masks).is_empty());
}
