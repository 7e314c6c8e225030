use beam_pipeline::BEAM_LIMIT;
use beam_pipeline::beam::{assign_step_beams, index_beams, BeamIndex, BeamOverflowError};

#[test]
fn test_index_beams_assigns_ranks() {
    let ids: Vec<u64> = vec![30, 10, 20];
    let slots = index_beams(&ids).unwrap();
    assert_eq!(slots.len(), 3);
    assert_eq!(slots[0], BeamIndex { index: 2, initiated: true });
    assert_eq!(slots[1], BeamIndex { index: 0, initiated: true });
    assert_eq!(slots[2], BeamIndex { index: 1, initiated: true });
}

#[test]
fn test_index_beams_single_beam() {
    let ids: Vec<u64> = vec![77];
    let slots = index_beams(&ids).unwrap();
    assert_eq!(slots.len(), 1);
    assert_eq!(slots[0], BeamIndex { index: 0, initiated: true });
}

#[test]
fn test_index_beams_deterministic() {
    let ids: Vec<u64> = vec![9, 4, 100, 55, 3, 8];
    let first = index_beams(&ids).unwrap();
    let second = index_beams(&ids).unwrap();
    assert_eq!(first, second);
}

#[test]
fn test_index_beams_slots_unique_at_limit() {
    let ids: Vec<u64> = (0..BEAM_LIMIT as u64).map(|i| 1000 - i).collect();
    let slots = index_beams(&ids).unwrap();
    assert_eq!(slots.len(), BEAM_LIMIT);
    let mut seen = vec![false; BEAM_LIMIT];
    for s in &slots {
        assert!(s.index < BEAM_LIMIT);
        assert!(!seen[s.index]);
        seen[s.index] = true;
        assert!(s.initiated);
    }
}

#[test]
fn test_index_beams_overflow() {
    let ids: Vec<u64> = (0..(BEAM_LIMIT as u64 + 1)).collect();
    let err = index_beams(&ids).unwrap_err();
    assert_eq!(
        err,
        BeamOverflowError { beam_count: BEAM_LIMIT + 1, limit: BEAM_LIMIT }
    );
}

#[test]
fn test_index_beams_empty() {
    let ids: Vec<u64> = Vec::new();
    let slots = index_beams(&ids).unwrap();
    assert!(slots.is_empty());
}

#[test]
fn test_index_beams_order_independent() {
    let first = index_beams(&vec![5, 9, 2]).unwrap();
    let second = index_beams(&vec![9, 2, 5]).unwrap();
    // Beam 9 holds the same slot however the live beams were listed.
    assert_eq!(first[1], second[0]);
    assert_eq!(first[0], second[2]);
    assert_eq!(first[2], second[1]);
}

#[test]
fn test_assign_step_beams_complete() {
    let cooling: Vec<u64> = vec![3, 1, 2];
    let dipole: Vec<u64> = vec![10, 20];
    let plan = assign_step_beams(&cooling, &dipole).unwrap();
    assert_eq!(plan.cooling_slots.len(), 3);
    assert_eq!(plan.dipole_slots.len(), 2);
    assert_eq!(plan.cooling_slots[1].index, 0);
    assert_eq!(plan.dipole_slots[0].index, 0);
    assert_eq!(plan.dipole_slots[1].index, 1);
}

#[test]
fn test_assign_step_beams_aborts_step_on_overflow() {
    let cooling: Vec<u64> = vec![1, 2];
    let dipole: Vec<u64> = (0..(BEAM_LIMIT as u64 + 2)).collect();
    let err = assign_step_beams(&cooling, &dipole).unwrap_err();
    assert_eq!(
        err,
        BeamOverflowError { beam_count: BEAM_LIMIT + 2, limit: BEAM_LIMIT }
    );
}

#[test]
fn test_beam_index_default_unassigned() {
    let idx = BeamIndex::default();
    assert_eq!(idx.index, 0);
    assert!(!idx.initiated);
}
