use noelleneumann_spiral_simulation::seed::{derive_seed, trial_seed};

fn seed_with(
    base: u64,
    eta_m: f64,
    network_beta: f64,
    alpha: f64,
    network_k: usize,
    true_support: f64,
    index: usize,
) -> u64 {
    trial_seed(
        base,
        eta_m.to_bits(),
        network_beta.to_bits(),
        alpha.to_bits(),
        network_k,
        true_support.to_bits(),
        index,
    )
}

fn seed_of(index: usize) -> u64 {
    seed_with(42, 0.5, 0.1, 0.7, 6, 0.37, index)
}

#[test]
fn same_inputs_give_the_same_seed() {
    for index in 0..8 {
        assert_eq!(seed_of(index), seed_of(index), "index={index} で再現しなかった");
    }
}

#[test]
fn each_coordinate_changes_the_seed() {
    let base = seed_of(0);
    assert_ne!(base, seed_with(43, 0.5, 0.1, 0.7, 6, 0.37, 0), "base が効いていない");
    assert_ne!(base, seed_with(42, 0.75, 0.1, 0.7, 6, 0.37, 0), "eta_m が効いていない");
    assert_ne!(base, seed_with(42, 0.5, 0.3, 0.7, 6, 0.37, 0), "network_beta が効いていない");
    assert_ne!(base, seed_with(42, 0.5, 0.1, 0.8, 6, 0.37, 0), "alpha が効いていない");
    assert_ne!(base, seed_with(42, 0.5, 0.1, 0.7, 8, 0.37, 0), "network_k が効いていない");
    assert_ne!(base, seed_with(42, 0.5, 0.1, 0.7, 6, 0.50, 0), "true_support が効いていない");
    assert_ne!(base, seed_of(1), "index が効いていない");
}

#[test]
fn one_condition_gives_distinct_seeds_across_trials() {
    let seeds: std::collections::BTreeSet<u64> = (0..64).map(seed_of).collect();
    assert_eq!(seeds.len(), 64, "同一条件の試行でシードが衝突した");
}

#[test]
fn golden_values_are_pinned() {
    assert_eq!(seed_of(0), 7_040_709_732_673_663_151);
    assert_eq!(seed_of(1), 7_040_708_633_162_034_940);
    assert_eq!(seed_with(42, 0.0, 0.0, 0.5, 6, 0.37, 0), 6_655_718_133_916_044_139);
}

#[test]
fn seed_of_labels_is_a_fold() {
    // With no labels, only the root is mixed in.
    assert_eq!(derive_seed(0, &[]), 0xcbf29ce484222325);
    assert_eq!(
        derive_seed(0, &[1]),
        (0xcbf29ce484222325u64 ^ 1).wrapping_mul(0x100000001b3)
    );
    assert_ne!(derive_seed(7, &[0]), derive_seed(7, &[1]));
}
