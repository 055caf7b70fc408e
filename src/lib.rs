//! Coin-flip simulation: enumerates every outcome of a fixed number of fair
//! coin flips, tallies the outcomes of repeated random trials, and compares
//! the empirical frequencies with the expected share of each outcome.

pub mod coin;
pub mod error;
pub mod outcomes;
pub mod simulation;
pub mod tally;

pub use coin::Coin;
pub use error::SimulationError;
pub use outcomes::{get_all_outcomes, get_num_outcomes};
pub use simulation::{run, summarize, CoinFlipResult, EmpiricalResult};
pub use tally::{outcome_index, record_trial};
