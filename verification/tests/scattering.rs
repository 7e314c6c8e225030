use beam_pipeline::scatter::{ScatterRng, TotalPhotonsScattered};

#[test]
fn test_first_draw_exact_value() {
    // One shift-xor update of state 1, computed by hand:
    // 1 ^ (1 << 13) = 0x2001; 0x2001 ^ (0x2001 >> 7) = 0x2041;
    // 0x2041 ^ (0x2041 << 17) = 0x4082_2041.
    let mut rng = ScatterRng::new(1);
    assert_eq!(rng.next_draw(), 0x4082_2041);
}

#[test]
fn test_draw_stream_reproducible() {
    let mut a = ScatterRng::new(42);
    let mut b = ScatterRng::new(42);
    for _ in 0..100 {
        assert_eq!(a.next_draw(), b.next_draw());
    }
}

#[test]
fn test_zero_seed_stream_reproducible() {
    let mut a = ScatterRng::new(0);
    let mut b = ScatterRng::new(0);
    let first = a.next_draw();
    assert_eq!(first, b.next_draw());
    assert_ne!(first, 0);
}

#[test]
fn test_photon_sampling_reproducible() {
    let mut a = ScatterRng::new(7);
    let mut b = ScatterRng::new(7);
    let count_a = a.sample_actual_photons(1000, u64::MAX / 3);
    let count_b = b.sample_actual_photons(1000, u64::MAX / 3);
    assert_eq!(count_a, count_b);
    // The streams end in the same state, so the next step stays identical.
    assert_eq!(a.next_draw(), b.next_draw());
}

#[test]
fn test_photon_sampling_count_bounded() {
    let mut rng = ScatterRng::new(12345);
    let count = rng.sample_actual_photons(500, u64::MAX / 2);
    assert!(count <= 500);
}

#[test]
fn test_photon_sampling_zero_threshold() {
    let mut rng = ScatterRng::new(9);
    assert_eq!(rng.sample_actual_photons(200, 0), 0);
}

#[test]
fn test_photon_sampling_zero_trials() {
    let mut rng = ScatterRng::new(9);
    assert_eq!(rng.sample_actual_photons(0, u64::MAX), 0);
}

#[test]
fn test_total_photons_accumulates() {
    let mut total = TotalPhotonsScattered::new();
    assert_eq!(total.total, 0);
    total.record(5);
    total.record(7);
    assert_eq!(total.total, 12);
}

#[test]
fn test_total_photons_saturates() {
    let mut total = TotalPhotonsScattered { total: u64::MAX - 3 };
    total.record(10);
    assert_eq!(total.total, u64::MAX);
    total.record(1);
    assert_eq!(total.total, u64::MAX);
}
