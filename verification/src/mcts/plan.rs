use vstd::prelude::*;

verus! {

/// Nodes a search may allocate: three per expansion, one expansion per simulation, a
/// margin of one abandoned expansion per thread, and the root.
pub open spec fn spec_arena_capacity(num_simulations: int, num_threads: int) -> int {
    (num_simulations + num_threads) * 3 + 1
}

/// The arena size for a search.
pub fn arena_capacity(num_simulations: usize, num_threads: usize) -> (c: usize)
    requires
        spec_arena_capacity(num_simulations as int, num_threads as int) <= usize::MAX,
    ensures
        c == spec_arena_capacity(num_simulations as int, num_threads as int),
{
    (num_simulations + num_threads) * 3 + 1
}

/// The arena of a search holds the root, its three children, and three children for
/// each simulation, as long as at least one thread runs (each simulation expands at
/// most one node, and a node is expanded at most once).
pub proof fn lemma_capacity_covers_search(num_simulations: nat, num_threads: nat)
    requires
        num_threads >= 1,
    ensures
        spec_arena_capacity(num_simulations as int, num_threads as int) >= 1 + 3 * (num_simulations + 1),
{
}

/// Simulations that thread `t` runs: an equal share, and thread 0 also takes the
/// remainder.
pub open spec fn spec_thread_simulations(num_simulations: int, num_threads: int, t: int) -> int {
    num_simulations / num_threads + if t == 0 { num_simulations % num_threads } else { 0 }
}

/// Simulations that thread `t` of `num_threads` runs.
pub fn thread_simulations(num_simulations: usize, num_threads: usize, t: usize) -> (n: usize)
    requires
        num_threads > 0,
    ensures
        n == spec_thread_simulations(num_simulations as int, num_threads as int, t as int),
{
    let share = num_simulations / num_threads;
    let remainder = num_simulations % num_threads;
    proof {
        vstd::arithmetic::div_mod::lemma_fundamental_div_mod(num_simulations as int, num_threads as int);
        assert(num_threads * share >= share) by (nonlinear_arith)
            requires
                num_threads >= 1,
                share >= 0,
        ;
    }
    if t == 0 {
        share + remainder
    } else {
        share
    }
}

/// Sum of the shares of threads `0..k`.
pub open spec fn shares_upto(num_simulations: int, num_threads: int, k: int) -> int
    decreases k,
{
    if k <= 0 {
        0
    } else {
        shares_upto(num_simulations, num_threads, k - 1) + spec_thread_simulations(
            num_simulations,
            num_threads,
            k - 1,
        )
    }
}

/// The threads together run exactly the requested number of simulations.
pub proof fn lemma_thread_shares_sum(num_simulations: nat, num_threads: nat)
    requires
        num_threads > 0,
    ensures
        shares_upto(num_simulations as int, num_threads as int, num_threads as int) == num_simulations,
{
    let s = num_simulations as int;
    let n = num_threads as int;
    let q = s / n;
    let r = s % n;
    assert forall|k: int| 1 <= k <= n implies #[trigger] shares_upto(s, n, k) == q * k + r by {
        lemma_shares_prefix(s, n, k);
    }
    vstd::arithmetic::div_mod::lemma_fundamental_div_mod(s, n);
    assert(q * n == n * q) by (nonlinear_arith);
}

proof fn lemma_shares_prefix(s: int, n: int, k: int)
    requires
        n > 0,
        1 <= k,
    ensures
        shares_upto(s, n, k) == (s / n) * k + s % n,
    decreases k,
{
    if k == 1 {
        assert(shares_upto(s, n, 0) == 0);
    } else {
        lemma_shares_prefix(s, n, k - 1);
        assert((s / n) * (k - 1) + s / n == (s / n) * k) by (nonlinear_arith);
    }
}

} // verus!
