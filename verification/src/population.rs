//! Placing the two camps on the network: exactly the intended number of pro agents,
//! at positions shuffled independently of the network topology.
use vstd::prelude::*;

verus! {

/// Number of `true` entries of `s`.
pub open spec fn count_true(s: Seq<bool>) -> nat
    decreases s.len(),
{
    if s.len() == 0 {
        0
    } else {
        count_true(s.drop_last()) + if s.last() {
            1nat
        } else {
            0nat
        }
    }
}

/// Camp flags before shuffling: the first `n_pro` agents are pro.
pub open spec fn initial_flags(n: nat, n_pro: nat) -> Seq<bool> {
    Seq::new(n, |i: int| i < n_pro)
}

/// Exchange of the entries at `i` and `j`.
pub open spec fn swap_at(s: Seq<bool>, i: int, j: int) -> Seq<bool> {
    s.update(i, s[j]).update(j, s[i])
}

/// Draws of a Fisher--Yates pass over `n` positions: for `i` from `n - 1` down to
/// `1`, one position in `0..=i`.
pub open spec fn valid_draws(n: nat, draws: Seq<usize>) -> bool {
    &&& draws.len() == if n == 0 {
        0
    } else {
        (n - 1) as nat
    }
    &&& forall|k: int| 0 <= k < draws.len() ==> #[trigger] draws[k] <= n - 1 - k
}

/// The Fisher--Yates pass: the `k`-th draw is exchanged with position `n - 1 - k`.
pub open spec fn shuffled(s: Seq<bool>, draws: Seq<usize>) -> Seq<bool>
    decreases draws.len(),
{
    if draws.len() == 0 {
        s
    } else {
        let k = draws.len() - 1;
        swap_at(shuffled(s, draws.drop_last()), s.len() - 1 - k, draws[k] as int)
    }
}

proof fn lemma_count_true_update(s: Seq<bool>, i: int, v: bool)
    requires
        0 <= i < s.len(),
    ensures
        count_true(s.update(i, v)) + (if s[i] {
            1int
        } else {
            0int
        }) == count_true(s) + (if v {
            1int
        } else {
            0int
        }),
    decreases s.len(),
{
    let t = s.update(i, v);
    if i < s.len() - 1 {
        assert(t.drop_last() =~= s.drop_last().update(i, v));
        lemma_count_true_update(s.drop_last(), i, v);
    } else {
        assert(t.drop_last() =~= s.drop_last());
    }
}

proof fn lemma_count_true_swap(s: Seq<bool>, i: int, j: int)
    requires
        0 <= i < s.len(),
        0 <= j < s.len(),
    ensures
        count_true(swap_at(s, i, j)) == count_true(s),
        swap_at(s, i, j).len() == s.len(),
{
    let t = s.update(i, s[j]);
    lemma_count_true_update(s, i, s[j]);
    lemma_count_true_update(t, j, s[i]);
}

proof fn lemma_shuffle_keeps_count_prefix(s: Seq<bool>, draws: Seq<usize>)
    requires
        draws.len() <= if s.len() == 0 {
            0
        } else {
            s.len() - 1
        },
        forall|k: int| 0 <= k < draws.len() ==> #[trigger] draws[k] <= s.len() - 1 - k,
    ensures
        count_true(shuffled(s, draws)) == count_true(s),
        shuffled(s, draws).len() == s.len(),
    decreases draws.len(),
{
    if draws.len() > 0 {
        let d = draws.drop_last();
        assert forall|k: int| 0 <= k < d.len() implies #[trigger] d[k] <= s.len() - 1 - k by {
            assert(d[k] == draws[k]);
        }
        lemma_shuffle_keeps_count_prefix(s, d);
        let k = draws.len() - 1;
        lemma_count_true_swap(shuffled(s, d), s.len() - 1 - k, draws[k] as int);
    }
}

proof fn lemma_initial_flags_count(n: nat, n_pro: nat)
    ensures
        count_true(initial_flags(n, n_pro)) == if n_pro < n {
            n_pro
        } else {
            n
        },
    decreases n,
{
    if n > 0 {
        lemma_initial_flags_count((n - 1) as nat, n_pro);
        assert(initial_flags(n, n_pro).drop_last() =~= initial_flags((n - 1) as nat, n_pro));
    }
}

/// Camp flags before shuffling: agent `i` is pro exactly when `i < n_pro`.
pub fn initial_camp_flags(n: usize, n_pro: usize) -> (flags: Vec<bool>)
    ensures
        flags@ == initial_flags(n as nat, n_pro as nat),
{
    let mut flags: Vec<bool> = Vec::new();
    for i in 0..n
        invariant
            flags@ =~= initial_flags(i as nat, n_pro as nat),
    {
        flags.push(i < n_pro);
    }
    flags
}

/// Shuffles camp flags with the Fisher--Yates pass whose random positions are
/// `draws` (the `k`-th draw is uniform in `0..=n-1-k`).
pub fn shuffle_flags(flags: &mut Vec<bool>, draws: &[usize])
    requires
        valid_draws(old(flags)@.len(), draws@),
    ensures
        final(flags)@ == shuffled(old(flags)@, draws@),
        count_true(final(flags)@) == count_true(old(flags)@),
{
    let ghost s = flags@;
    let n = flags.len();
    let m = draws.len();
    for k in 0..m
        invariant
            n == s.len(),
            m == draws@.len(),
            valid_draws(s.len(), draws@),
            flags@ == shuffled(s, draws@.take(k as int)),
            flags@.len() == n,
    {
        let i = n - 1 - k;
        let j = draws[k];
        proof {
            let d = draws@.take(k as int);
            assert forall|t: int| 0 <= t < d.len() implies #[trigger] d[t] <= s.len() - 1 - t by {
                assert(d[t] == draws@[t]);
            }
            lemma_shuffle_keeps_count_prefix(s, d);
            assert(draws@.take(k + 1).drop_last() =~= d);
        }
        let a = flags[i];
        let b = flags[j];
        flags.set(i, b);
        flags.set(j, a);
        proof {
            let d = draws@.take(k as int);
            assert(flags@ =~= swap_at(shuffled(s, d), i as int, j as int));
        }
    }
    proof {
        assert(draws@.take(m as int) =~= draws@);
        lemma_shuffle_keeps_count_prefix(s, draws@);
    }
}

/// The shuffled camp flags of `n` agents of whom `n_pro` are pro.
pub fn assign_camps(n: usize, n_pro: usize, draws: &[usize]) -> (flags: Vec<bool>)
    requires
        valid_draws(n as nat, draws@),
    ensures
        flags@ == shuffled(initial_flags(n as nat, n_pro as nat), draws@),
        count_true(flags@) == if n_pro < n {
            n_pro
        } else {
            n
        },
{
    let mut flags = initial_camp_flags(n, n_pro);
    shuffle_flags(&mut flags, draws);
    proof {
        lemma_initial_flags_count(n as nat, n_pro as nat);
    }
    flags
}

/// However the positions are drawn, the shuffled population holds exactly
/// `min(n, n_pro)` pro agents: the true support is fixed by `n_pro` alone.
pub proof fn lemma_shuffle_keeps_true_support(n: nat, n_pro: nat, draws: Seq<usize>)
    requires
        valid_draws(n, draws),
    ensures
        count_true(shuffled(initial_flags(n, n_pro), draws)) == if n_pro < n {
            n_pro
        } else {
            n
        },
        shuffled(initial_flags(n, n_pro), draws).len() == n,
{
    lemma_shuffle_keeps_count_prefix(initial_flags(n, n_pro), draws);
    lemma_initial_flags_count(n, n_pro);
}

} // verus!
