use coin_flip_simulation::Coin::{Heads, Tails};
use coin_flip_simulation::{
    get_all_outcomes, outcome_index, record_trial, run, summarize, CoinFlipResult,
    EmpiricalResult, SimulationError,
};

fn probability(e: &EmpiricalResult) -> f64 {
    e.count as f64 / e.iterations as f64
}

fn simulate(k: usize, iterations: usize) -> CoinFlipResult {
    match run(k, iterations) {
        Ok(r) => r,
        Err(e) => panic!("run({k}, {iterations}) failed: {e:?}"),
    }
}

#[test]
fn run_three_flips_eight_thousand_trials() {
    let result = simulate(3, 8000);
    assert_eq!(result.iterations, 8000);
    assert_eq!(result.expected.count, 1000);
    assert_eq!(probability(&result.expected), 0.125f64);
    assert!(result.results.iter().any(|(k, _)| k == "HHH"));
}

#[test]
fn counts_add_up_to_iterations() {
    for (k, n) in [(0usize, 5usize), (1, 1), (2, 7), (3, 1000), (5, 333)] {
        let result = simulate(k, n);
        let total: usize = result.results.iter().map(|(_, e)| e.count).sum();
        assert_eq!(total, n);
        for (_, e) in result.results.iter() {
            assert_eq!(e.iterations, n);
        }
    }
}

#[test]
fn results_cover_exactly_the_outcomes() {
    for k in 0..=6usize {
        let result = simulate(k, 50);
        let keys: Vec<String> = result.results.iter().map(|(s, _)| s.clone()).collect();
        assert_eq!(Ok(keys), get_all_outcomes(k));
    }
}

#[test]
fn zero_counts_are_reported() {
    let result = simulate(6, 1);
    assert_eq!(result.results.len(), 64);
    let zeros = result.results.iter().filter(|(_, e)| e.count == 0).count();
    assert_eq!(zeros, 63);
}

#[test]
fn expected_uses_floor_division() {
    let result = simulate(3, 100);
    assert_eq!(result.expected.count, 12);
    assert_eq!(result.expected.iterations, 100);
    assert_eq!(probability(&result.expected), 0.12f64);

    let small = simulate(4, 10);
    assert_eq!(small.expected.count, 0);
    assert_eq!(probability(&small.expected), 0.0f64);
}

#[test]
fn expected_of_empirical_result() {
    assert_eq!(EmpiricalResult::expected(3, 8000), Ok(EmpiricalResult { count: 1000, iterations: 8000 }));
    assert_eq!(EmpiricalResult::expected(2, 7), Ok(EmpiricalResult { count: 1, iterations: 7 }));
    assert_eq!(EmpiricalResult::expected(0, 7), Ok(EmpiricalResult { count: 7, iterations: 7 }));
    assert_eq!(EmpiricalResult::new(3, 4), EmpiricalResult { count: 3, iterations: 4 });
}

#[test]
fn expected_rejects_zero_trials_and_overflow() {
    let bits = usize::BITS as usize;
    assert_eq!(EmpiricalResult::expected(3, 0), Err(SimulationError::InvalidArgument));
    assert_eq!(EmpiricalResult::expected(bits, 0), Err(SimulationError::InvalidArgument));
    assert_eq!(EmpiricalResult::expected(bits, 5), Err(SimulationError::Overflow));
}

#[test]
fn no_flips_gives_the_empty_outcome_every_time() {
    let result = simulate(0, 42);
    assert_eq!(result.results.len(), 1);
    assert_eq!(result.results[0].0, "");
    assert_eq!(result.results[0].1.count, 42);
    assert_eq!(probability(&result.results[0].1), 1.0f64);
    assert_eq!(result.expected.count, 42);
}

#[test]
fn frequencies_are_near_uniform() {
    let result = simulate(3, 80000);
    assert_eq!(result.results.len(), 8);
    for (_, e) in result.results.iter() {
        assert!((probability(e) - 0.125).abs() < 0.02);
    }
}

#[test]
fn zero_iterations_is_invalid() {
    assert!(matches!(run(3, 0), Err(SimulationError::InvalidArgument)));
    assert!(matches!(run(0, 0), Err(SimulationError::InvalidArgument)));
}

#[test]
fn too_many_flips_overflow() {
    let bits = usize::BITS as usize;
    assert!(matches!(run(bits, 10), Err(SimulationError::Overflow)));
    assert!(matches!(run(bits + 1, 10), Err(SimulationError::Overflow)));
    assert!(matches!(run(bits, 0), Err(SimulationError::InvalidArgument)));
}

#[test]
fn outcome_index_reads_flips_as_binary() {
    assert_eq!(outcome_index(&vec![]), 0);
    assert_eq!(outcome_index(&vec![Heads, Heads, Heads]), 0);
    assert_eq!(outcome_index(&vec![Tails, Heads, Tails]), 5);
    assert_eq!(outcome_index(&vec![Heads, Tails, Tails]), 3);
    let outcomes = get_all_outcomes(3).unwrap();
    assert_eq!(outcomes[outcome_index(&vec![Tails, Tails, Heads])], "TTH");
}

#[test]
fn record_trial_counts_one_outcome() {
    let mut counts = vec![0usize; 4];
    record_trial(&mut counts, &vec![Tails, Heads]);
    assert_eq!(counts, vec![0, 0, 1, 0]);
    record_trial(&mut counts, &vec![Tails, Heads]);
    record_trial(&mut counts, &vec![Heads, Tails]);
    assert_eq!(counts, vec![0, 1, 2, 0]);
}

#[test]
fn summarize_reports_each_count() {
    let counts = vec![3usize, 0, 5, 2];
    let result = summarize(2, 10, &counts);
    assert_eq!(result.iterations, 10);
    assert_eq!(result.expected, EmpiricalResult { count: 2, iterations: 10 });
    let expected = vec![
        ("HH".to_string(), EmpiricalResult { count: 3, iterations: 10 }),
        ("HT".to_string(), EmpiricalResult { count: 0, iterations: 10 }),
        ("TH".to_string(), EmpiricalResult { count: 5, iterations: 10 }),
        ("TT".to_string(), EmpiricalResult { count: 2, iterations: 10 }),
    ];
    assert_eq!(result.results, expected);
}
