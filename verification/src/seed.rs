//! Seed derivation: every random stream and every trial of a sweep gets its own
//! seed, derived deterministically from a root seed and integer labels.
//!
//! The derivation folds the labels into the root with the 64-bit FNV-1a step
//! (`h ← (h ⊕ x) · 0x100000001b3 mod 2^64`), starting from
//! `0xcbf29ce484222325 ⊕ (root · 0x100000001b3 mod 2^64)`.  Every step is a
//! bijection of the state, so changing any one label, or the root, changes the seed.
use vstd::prelude::*;

verus! {

/// Multiplication by the 64-bit FNV prime, modulo `2^64`.
pub open spec fn fnv_multiply(h: u64) -> u64 {
    ((h as u128) * 0x100000001b3u128) as u64
}

/// One folding step.
pub open spec fn seed_mix(h: u64, x: u64) -> u64 {
    fnv_multiply(h ^ x)
}

/// The state before any label is folded in.
pub open spec fn seed_start(root: u64) -> u64 {
    0xcbf29ce484222325u64 ^ fnv_multiply(root)
}

/// The seed derived from `root` and `labels`.
pub open spec fn derived_seed(root: u64, labels: Seq<u64>) -> u64
    decreases labels.len(),
{
    if labels.len() == 0 {
        seed_start(root)
    } else {
        seed_mix(derived_seed(root, labels.drop_last()), labels.last())
    }
}

/// The labels that identify one trial of a sweep: the bit patterns of `η_m`, the
/// rewiring rate, `α` and the true support, the mean degree, and the trial index.
pub open spec fn trial_labels(
    eta_m_bits: u64,
    network_beta_bits: u64,
    alpha_bits: u64,
    network_k: usize,
    true_support_bits: u64,
    index: usize,
) -> Seq<u64> {
    seq![
        eta_m_bits,
        network_beta_bits,
        alpha_bits,
        network_k as u64,
        true_support_bits,
        index as u64,
    ]
}

fn multiply_by_fnv_prime(h: u64) -> (r: u64)
    ensures
        r == fnv_multiply(h),
{
    ((h as u128) * 0x100000001b3u128) as u64
}

/// Derives a seed from `root` and `labels`.
pub fn derive_seed(root: u64, labels: &[u64]) -> (s: u64)
    ensures
        s == derived_seed(root, labels@),
{
    let mut h: u64 = 0xcbf29ce484222325u64 ^ multiply_by_fnv_prime(root);
    let n = labels.len();
    for i in 0..n
        invariant
            n == labels@.len(),
            h == derived_seed(root, labels@.take(i as int)),
    {
        assert(labels@.take(i + 1).drop_last() =~= labels@.take(i as int));
        h = multiply_by_fnv_prime(h ^ labels[i]);
    }
    assert(labels@.take(n as int) =~= labels@);
    h
}

/// The seed of trial `index` of one sweep condition.  The floating-point
/// coordinates are given by their IEEE-754 bit patterns (`f64::to_bits`).
pub fn trial_seed(
    base: u64,
    eta_m_bits: u64,
    network_beta_bits: u64,
    alpha_bits: u64,
    network_k: usize,
    true_support_bits: u64,
    index: usize,
) -> (s: u64)
    ensures
        s == derived_seed(
            base,
            trial_labels(
                eta_m_bits,
                network_beta_bits,
                alpha_bits,
                network_k,
                true_support_bits,
                index,
            ),
        ),
{
    let labels: [u64; 6] = [
        eta_m_bits,
        network_beta_bits,
        alpha_bits,
        network_k as u64,
        true_support_bits,
        index as u64,
    ];
    let s = derive_seed(base, labels.as_slice());
    assert(labels@ =~= trial_labels(
        eta_m_bits,
        network_beta_bits,
        alpha_bits,
        network_k,
        true_support_bits,
        index,
    ));
    s
}

/// Multiplication by the FNV prime is invertible modulo `2^64`.
pub proof fn lemma_fnv_multiply_injective(a: u64, b: u64)
    ensures
        fnv_multiply(a) == fnv_multiply(b) ==> a == b,
{
    assert(((((a as u128) * 0x100000001b3u128) as u64) as u128 * 0xce965057aff6957bu128) as u64
        == a) by (bit_vector);
    assert(((((b as u128) * 0x100000001b3u128) as u64) as u128 * 0xce965057aff6957bu128) as u64
        == b) by (bit_vector);
}

proof fn lemma_mix_injective(h1: u64, h2: u64, x1: u64, x2: u64)
    ensures
        seed_mix(h1, x1) == seed_mix(h2, x2) ==> (h1 ^ x1) == (h2 ^ x2),
        h1 == h2 && x1 != x2 ==> seed_mix(h1, x1) != seed_mix(h2, x2),
        h1 != h2 && x1 == x2 ==> seed_mix(h1, x1) != seed_mix(h2, x2),
{
    lemma_fnv_multiply_injective(h1 ^ x1, h2 ^ x2);
    assert(h1 == h2 && x1 != x2 ==> (h1 ^ x1) != (h2 ^ x2)) by (bit_vector);
    assert(h1 != h2 && x1 == x2 ==> (h1 ^ x1) != (h2 ^ x2)) by (bit_vector);
}

/// Changing any single label changes the derived seed.
pub proof fn lemma_each_label_changes_the_seed(root: u64, labels: Seq<u64>, i: int, v: u64)
    requires
        0 <= i < labels.len(),
        v != labels[i],
    ensures
        derived_seed(root, labels.update(i, v)) != derived_seed(root, labels),
    decreases labels.len(),
{
    let changed = labels.update(i, v);
    if i == labels.len() - 1 {
        assert(changed.drop_last() =~= labels.drop_last());
        lemma_mix_injective(
            derived_seed(root, labels.drop_last()),
            derived_seed(root, labels.drop_last()),
            v,
            labels.last(),
        );
    } else {
        assert(changed.drop_last() =~= labels.drop_last().update(i, v));
        lemma_each_label_changes_the_seed(root, labels.drop_last(), i, v);
        lemma_mix_injective(
            derived_seed(root, changed.drop_last()),
            derived_seed(root, labels.drop_last()),
            labels.last(),
            labels.last(),
        );
    }
}

/// Different roots give different seeds for the same labels.
pub proof fn lemma_root_changes_the_seed(r1: u64, r2: u64, labels: Seq<u64>)
    requires
        r1 != r2,
    ensures
        derived_seed(r1, labels) != derived_seed(r2, labels),
    decreases labels.len(),
{
    if labels.len() == 0 {
        lemma_fnv_multiply_injective(r1, r2);
        let a = fnv_multiply(r1);
        let b = fnv_multiply(r2);
        assert(a != b ==> (0xcbf29ce484222325u64 ^ a) != (0xcbf29ce484222325u64 ^ b))
            by (bit_vector);
    } else {
        lemma_root_changes_the_seed(r1, r2, labels.drop_last());
        lemma_mix_injective(
            derived_seed(r1, labels.drop_last()),
            derived_seed(r2, labels.drop_last()),
            labels.last(),
            labels.last(),
        );
    }
}

/// Within one sweep condition, different trials always get different seeds, and
/// the same trial always gets the same seed.
pub proof fn lemma_trials_get_distinct_seeds(
    base: u64,
    eta_m_bits: u64,
    network_beta_bits: u64,
    alpha_bits: u64,
    network_k: usize,
    true_support_bits: u64,
    i: usize,
    j: usize,
)
    ensures
        (derived_seed(
            base,
            trial_labels(eta_m_bits, network_beta_bits, alpha_bits, network_k, true_support_bits, i),
        ) == derived_seed(
            base,
            trial_labels(eta_m_bits, network_beta_bits, alpha_bits, network_k, true_support_bits, j),
        )) <==> i == j,
{
    let li = trial_labels(eta_m_bits, network_beta_bits, alpha_bits, network_k, true_support_bits, i);
    let lj = trial_labels(eta_m_bits, network_beta_bits, alpha_bits, network_k, true_support_bits, j);
    if i != j {
        assert(lj =~= li.update(5, j as u64));
        lemma_each_label_changes_the_seed(base, li, 5, j as u64);
    } else {
        assert(li =~= lj);
    }
}

} // verus!
