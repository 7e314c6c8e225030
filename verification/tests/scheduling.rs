use beam_pipeline::pipeline::{add_physics_systems_to_dispatch, add_systems_to_dispatch};
use beam_pipeline::schedule::StageGraph;

fn position_of(order: &[usize], stage: usize) -> usize {
    order.iter().position(|s| *s == stage).expect("stage missing from schedule")
}

#[test]
fn test_schedule_empty_graph() {
    let g = StageGraph::new();
    let order = g.schedule().unwrap();
    assert!(order.is_empty());
}

#[test]
fn test_schedule_respects_dependencies() {
    let mut g = StageGraph::new();
    let a = g.add_stage();
    let b = g.add_stage();
    let c = g.add_stage();
    let d = g.add_stage();
    g.add_dependency(a, b);
    g.add_dependency(b, c);
    g.add_dependency(a, d);
    g.add_dependency(d, c);
    let order = g.schedule().unwrap();
    assert_eq!(order.len(), 4);
    assert!(position_of(&order, a) < position_of(&order, b));
    assert!(position_of(&order, b) < position_of(&order, c));
    assert!(position_of(&order, a) < position_of(&order, d));
    assert!(position_of(&order, d) < position_of(&order, c));
}

#[test]
fn test_schedule_detects_cycle() {
    let mut g = StageGraph::new();
    let a = g.add_stage();
    let b = g.add_stage();
    g.add_dependency(a, b);
    g.add_dependency(b, a);
    assert!(g.schedule().is_err());
}

#[test]
fn test_schedule_detects_self_dependency() {
    let mut g = StageGraph::new();
    let a = g.add_stage();
    g.add_dependency(a, a);
    assert!(g.schedule().is_err());
}

#[test]
fn test_pipeline_stages_all_scheduled_once() {
    let mut g = StageGraph::new();
    let integrate_position = g.add_stage();
    let deps: Vec<usize> = vec![integrate_position];
    let laser = add_systems_to_dispatch(&mut g, &deps, integrate_position);
    let phys = add_physics_systems_to_dispatch(&mut g, &laser);
    assert_eq!(g.num_stages(), 14);
    let order = g.schedule().unwrap();
    assert_eq!(order.len(), 14);
    for stage in 0..14 {
        assert_eq!(order.iter().filter(|s| **s == stage).count(), 1);
    }
    assert_eq!(phys.aggregate_forces, 13);
}

#[test]
fn test_detuning_runs_after_indexing_and_sampling() {
    let mut g = StageGraph::new();
    let integrate_position = g.add_stage();
    let deps: Vec<usize> = Vec::new();
    let laser = add_systems_to_dispatch(&mut g, &deps, integrate_position);
    let phys = add_physics_systems_to_dispatch(&mut g, &laser);
    let order = g.schedule().unwrap();
    let detuning = position_of(&order, phys.calculate_detuning);
    assert!(position_of(&order, laser.index_cooling_lights) < detuning);
    assert!(position_of(&order, laser.sample_laser_intensity) < detuning);
    assert!(detuning < position_of(&order, phys.calculate_rate_coefficients));
    assert!(
        position_of(&order, phys.calculate_rate_coefficients)
            < position_of(&order, phys.calculate_photon_scattering)
    );
    assert!(
        position_of(&order, phys.calculate_photon_scattering)
            < position_of(&order, phys.aggregate_forces)
    );
    assert!(
        position_of(&order, laser.sample_intensity_gradient)
            < position_of(&order, phys.aggregate_forces)
    );
}

#[test]
fn test_pipeline_leaf_dependencies_respected() {
    let mut g = StageGraph::new();
    let integrate_position = g.add_stage();
    let clear_forces = g.add_stage();
    let deps: Vec<usize> = vec![clear_forces];
    let laser = add_systems_to_dispatch(&mut g, &deps, integrate_position);
    let order = g.schedule().unwrap();
    let clear = position_of(&order, clear_forces);
    assert!(clear < position_of(&order, laser.attach_laser_components));
    assert!(clear < position_of(&order, laser.attach_cooling_index));
    assert!(clear < position_of(&order, laser.index_cooling_lights));
    assert!(clear < position_of(&order, laser.attach_dipole_index));
    assert!(clear < position_of(&order, laser.initialise_laser_sampler_masks));
    assert!(
        position_of(&order, laser.attach_dipole_index)
            < position_of(&order, laser.index_dipole_lights)
    );
    assert!(
        position_of(&order, laser.index_cooling_lights)
            < position_of(&order, laser.fill_laser_sampler_masks)
    );
    assert!(
        position_of(&order, integrate_position)
            < position_of(&order, laser.sample_laser_intensity)
    );
}
