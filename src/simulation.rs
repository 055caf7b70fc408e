//! Running trials and reporting how often each outcome came up.

use vstd::prelude::*;

use crate::coin::Coin;
use crate::error::SimulationError;
use crate::outcomes::{get_num_outcomes, list_outcomes, lists_outcomes, outcome_of, two_pow};
use crate::tally::{flips_index, lemma_flips_index, lemma_sum_push, lemma_sum_update, record_trial, seq_sum};

verus! {

/// How often one outcome came up: `count` trials out of `iterations`. Its
/// probability is the fraction `count / iterations`.
#[derive(PartialEq, Eq, Structural, Clone, Copy, Debug)]
pub struct EmpiricalResult {
    pub count: usize,
    pub iterations: usize,
}

/// The outcome of a whole simulation: the number of trials, the expected
/// result of one outcome, and one empirical result per outcome, in ascending
/// order of outcome.
#[derive(Debug)]
pub struct CoinFlipResult {
    pub iterations: usize,
    pub expected: EmpiricalResult,
    pub results: Vec<(String, EmpiricalResult)>,
}

/// The counts of a simulation's results, in order.
pub open spec fn result_counts(r: CoinFlipResult) -> Seq<usize> {
    r.results@.map_values(|e: (String, EmpiricalResult)| e.1.count)
}

/// The outcomes of a simulation's results, in order.
pub open spec fn result_keys(r: CoinFlipResult) -> Seq<Seq<char>> {
    r.results@.map_values(|e: (String, EmpiricalResult)| e.0@)
}

/// The expected result of one outcome of `k` flips over `iterations` trials:
/// `iterations / 2^k` (rounded down) of them.
pub open spec fn expected_of(k: nat, iterations: usize) -> EmpiricalResult {
    EmpiricalResult { count: (iterations as nat / two_pow(k)) as usize, iterations }
}

/// `r` reports `counts[i]` trials out of `iterations` for the outcome at
/// position `i` of `k` flips, and the expected result of `k` flips.
pub open spec fn summarizes(r: CoinFlipResult, k: nat, iterations: usize, counts: Seq<usize>) -> bool {
    &&& r.iterations == iterations
    &&& r.expected == expected_of(k, iterations)
    &&& r.results@.len() == counts.len()
    &&& forall|i: int|
        0 <= i < counts.len() ==> (#[trigger] r.results@[i]).0@ == outcome_of(k, i as nat)
            && r.results@[i].1 == (EmpiricalResult { count: counts[i], iterations })
}

/// `r` is what a simulation of `iterations` trials of `k` flips may report:
/// every outcome once, in ascending order, with counts that add up to the
/// number of trials.
pub open spec fn is_run_result(r: CoinFlipResult, k: nat, iterations: usize) -> bool {
    &&& summarizes(r, k, iterations, result_counts(r))
    &&& r.results@.len() == two_pow(k)
    &&& seq_sum(result_counts(r)) == iterations
}

impl EmpiricalResult {
    /// `count` trials out of `iterations`.
    pub fn new(count: usize, iterations: usize) -> (r: Self)
        requires
            iterations > 0,
        ensures
            r == (EmpiricalResult { count, iterations }),
    {
        EmpiricalResult { count, iterations }
    }

    /// The expected result of one outcome of `flips_per_iteration` flips over
    /// `iterations` trials: `iterations / 2^flips_per_iteration` of them,
    /// rounded down. Fails with `InvalidArgument` when `iterations` is zero,
    /// and otherwise with `Overflow` when `2^flips_per_iteration` does not fit
    /// in a `usize`.
    pub fn expected(flips_per_iteration: usize, iterations: usize) -> (r: Result<
        Self,
        SimulationError,
    >)
        ensures
            iterations == 0 ==> r == Err::<Self, SimulationError>(SimulationError::InvalidArgument),
            iterations > 0 && two_pow(flips_per_iteration as nat) > usize::MAX ==> r == Err::<
                Self,
                SimulationError,
            >(SimulationError::Overflow),
            iterations > 0 && two_pow(flips_per_iteration as nat) <= usize::MAX ==> r == Ok::<
                Self,
                SimulationError,
            >(expected_of(flips_per_iteration as nat, iterations)),
    {
        if iterations == 0 {
            return Err(SimulationError::InvalidArgument);
        }
        proof {
            crate::outcomes::lemma_two_pow_monotone(0, flips_per_iteration as nat);
        }
        match get_num_outcomes(flips_per_iteration) {
            Ok(num_outcomes) => Ok(EmpiricalResult::new(iterations / num_outcomes, iterations)),
            Err(e) => Err(e),
        }
    }
}

impl CoinFlipResult {
    fn new(
        iterations: usize,
        expected: EmpiricalResult,
        results: Vec<(String, EmpiricalResult)>,
    ) -> (r: Self)
        ensures
            r.iterations == iterations,
            r.expected == expected,
            r.results@ == results@,
    {
        CoinFlipResult { iterations, expected, results }
    }
}

/// Turns a tally into a report: the outcome at position `i` of
/// `flips_per_iteration` flips came up `counts[i]` times in `iterations`
/// trials.
pub fn summarize(flips_per_iteration: usize, iterations: usize, counts: &Vec<usize>) -> (r:
    CoinFlipResult)
    requires
        iterations > 0,
        two_pow(flips_per_iteration as nat) <= usize::MAX,
        counts@.len() == two_pow(flips_per_iteration as nat),
    ensures
        summarizes(r, flips_per_iteration as nat, iterations, counts@),
{
    let ghost k = flips_per_iteration as nat;
    let outcomes = list_outcomes(flips_per_iteration);
    let mut results: Vec<(String, EmpiricalResult)> = Vec::new();
    let mut i: usize = 0;
    while i < counts.len()
        invariant
            i <= counts@.len(),
            iterations > 0,
            lists_outcomes(k, outcomes@),
            counts@.len() == outcomes@.len(),
            results@.len() == i,
            forall|j: int|
                0 <= j < i ==> (#[trigger] results@[j]).0@ == outcome_of(k, j as nat)
                    && results@[j].1 == (EmpiricalResult { count: counts@[j], iterations }),
        decreases counts@.len() - i,
    {
        let key = outcomes[i].clone();
        results.push((key, EmpiricalResult::new(counts[i], iterations)));
        i = i + 1;
    }
    proof {
        crate::outcomes::lemma_two_pow_monotone(0, k);
    }
    let expected = EmpiricalResult::new(iterations / counts.len(), iterations);
    CoinFlipResult::new(iterations, expected, results)
}

/// Draws `flips_per_iteration` fair coins, in order.
fn draw_trial(flips_per_iteration: usize) -> (flips: Vec<Coin>)
    ensures
        flips@.len() == flips_per_iteration,
{
    let mut flips: Vec<Coin> = Vec::new();
    let mut j: usize = 0;
    while j < flips_per_iteration
        invariant
            j <= flips_per_iteration,
            flips@.len() == j,
        decreases flips_per_iteration - j,
    {
        flips.push(Coin::flip());
        j = j + 1;
    }
    flips
}

/// Runs `iterations` trials of `flips_per_iteration` fair flips each and
/// reports how often each outcome came up.
///
/// Fails with `InvalidArgument` when `iterations` is zero, and otherwise with
/// `Overflow` when `2^flips_per_iteration` does not fit in a `usize`. Every
/// outcome is reported, once, in ascending order, those that never came up
/// with a count of zero; the counts add up to `iterations`.
pub fn run(flips_per_iteration: usize, iterations: usize) -> (r: Result<
    CoinFlipResult,
    SimulationError,
>)
    ensures
        iterations == 0 ==> r == Err::<CoinFlipResult, SimulationError>(
            SimulationError::InvalidArgument,
        ),
        iterations > 0 && two_pow(flips_per_iteration as nat) > usize::MAX ==> r == Err::<
            CoinFlipResult,
            SimulationError,
        >(SimulationError::Overflow),
        iterations > 0 && two_pow(flips_per_iteration as nat) <= usize::MAX ==> match r {
            Ok(res) => is_run_result(res, flips_per_iteration as nat, iterations),
            Err(_) => false,
        },
{
    if iterations == 0 {
        return Err(SimulationError::InvalidArgument);
    }
    let num_outcomes = match get_num_outcomes(flips_per_iteration) {
        Ok(n) => n,
        Err(e) => {
            return Err(e);
        },
    };
    let ghost k = flips_per_iteration as nat;
    let mut counts: Vec<usize> = Vec::new();
    let mut i: usize = 0;
    while i < num_outcomes
        invariant
            i <= num_outcomes,
            counts@.len() == i,
            seq_sum(counts@) == 0,
        decreases num_outcomes - i,
    {
        proof {
            lemma_sum_push(counts@, 0);
        }
        counts.push(0);
        i = i + 1;
    }
    let mut t: usize = 0;
    while t < iterations
        invariant
            0 < iterations,
            t <= iterations,
            num_outcomes == two_pow(k),
            k == flips_per_iteration,
            counts@.len() == two_pow(k),
            seq_sum(counts@) == t,
        decreases iterations - t,
    {
        let flips = draw_trial(flips_per_iteration);
        proof {
            lemma_flips_index(flips@);
            let idx = flips_index(flips@) as int;
            lemma_sum_update(counts@, idx, counts@[idx]);
        }
        record_trial(&mut counts, &flips);
        t = t + 1;
    }
    let r = summarize(flips_per_iteration, iterations, &counts);
    proof {
        assert(result_counts(r) =~= counts@);
    }
    Ok(r)
}

/// Every outcome of `k` flips is reported, and nothing else: the outcomes of
/// a simulation's results are those that the ascending list of outcomes
/// holds, in the same order.
pub proof fn lemma_results_cover_outcomes(
    k: nat,
    iterations: usize,
    r: CoinFlipResult,
    outs: Seq<String>,
)
    requires
        is_run_result(r, k, iterations),
        lists_outcomes(k, outs),
    ensures
        result_keys(r) == outs.map_values(|s: String| s@),
        forall|key: Seq<char>|
            result_keys(r).contains(key) <==> outs.map_values(|s: String| s@).contains(key),
{
    assert(result_keys(r) =~= outs.map_values(|s: String| s@));
}

/// With no flips per trial there is one outcome, the empty one, and every
/// trial produces it: its count is the number of trials, its probability one.
pub proof fn lemma_no_flips(iterations: usize, r: CoinFlipResult)
    requires
        is_run_result(r, 0, iterations),
    ensures
        r.results@.len() == 1,
        r.results@[0].0@ == Seq::<char>::empty(),
        r.results@[0].1 == (EmpiricalResult { count: iterations, iterations }),
        r.expected == (EmpiricalResult { count: iterations, iterations }),
{
    let c = result_counts(r);
    assert(c.drop_last() =~= Seq::<usize>::empty());
    assert(seq_sum(c.drop_last()) == 0);
    assert(c[0] == r.results@[0].1.count);
    assert(two_pow(0) == 1);
    assert(iterations as nat / 1 == iterations);
    assert(expected_of(0, iterations) == (EmpiricalResult { count: iterations, iterations }));
    assert(r.results@[0].0@ == outcome_of(0, 0));
}

} // verus!
