//! Strategy optimisation. Only the fitness measure exists; the search keeps
//! the strategy it is given.
use crate::decimal::Decimal;
use crate::monte_carlo::INITIAL_CAPITAL;
use crate::risk::{history_values, spec_returns, spec_sharpe};
use crate::simulator::{trial, Simulator, SimulatorView};
use crate::strategy::Strategy;
use crate::types::SimError;
use vstd::prelude::*;

verus! {

/// The fitness of a run that ended in `end` with outcome `res`: zero for a
/// failed run, else the Sharpe ratio (at a zero risk-free rate) of its
/// snapshot history, floored at zero.
pub open spec fn fitness_of(end: SimulatorView, res: Result<(), SimError>) -> Decimal {
    let sharpe = spec_sharpe(spec_returns(history_values(end.history)), Decimal::spec_zero());
    if res is Err || sharpe.units() <= 0 {
        Decimal::spec_zero()
    } else {
        sharpe
    }
}

/// Parameters of a genetic search over strategy parameters.
pub struct StrategyOptimizer {
    pub population_size: usize,
    pub generations: usize,
    pub mutation_rate: Decimal,
}

impl StrategyOptimizer {
    /// A population of 50 over 100 generations, mutating at rate 0.1.
    pub fn new() -> (r: StrategyOptimizer)
        ensures
            r.population_size == 50,
            r.generations == 100,
            r.mutation_rate == Decimal::spec_lit(1, 1),
    {
        StrategyOptimizer {
            population_size: 50,
            generations: 100,
            mutation_rate: Decimal::new(1, 1),
        }
    }

    /// The optimised strategy: no search is made, so it is the one given.
    pub fn optimize(&self, initial_strategy: Strategy) -> (r: Result<Strategy, SimError>)
        ensures
            r == Ok::<Strategy, SimError>(initial_strategy),
    {
        Ok(initial_strategy)
    }

    /// The fitness of a strategy: the Sharpe ratio of a hundred-step run from
    /// the starting capital, floored at zero; zero when a step fails.
    pub fn evaluate_fitness(&self, strategy: &Strategy) -> (r: Decimal)
        ensures
            r.wf(),
            r.units() >= 0,
            exists|end: SimulatorView, res: Result<(), SimError>|
                trial(Decimal::spec_lit(INITIAL_CAPITAL as int, 0), *strategy, 100, end, res) && r
                    == fitness_of(end, res),
    {
        let (simulator, outcome) = Simulator::run(Decimal::new(INITIAL_CAPITAL, 0), *strategy, 100);
        let ghost end = simulator@;
        let ghost capital = Decimal::spec_lit(INITIAL_CAPITAL as int, 0);
        proof {
            crate::decimal::lemma_units_sign(Decimal::spec_zero());
            assert(trial(capital, *strategy, 100, end, outcome));
        }
        if outcome.is_err() {
            proof {
                assert(Decimal::spec_zero() == fitness_of(end, outcome));
            }
            return Decimal::zero();
        }
        let results = simulator.finalize();
        let r = if results.sharpe_ratio.gt(&Decimal::zero()) {
            results.sharpe_ratio
        } else {
            Decimal::zero()
        };
        proof {
            assert(results.sharpe_ratio == spec_sharpe(
                spec_returns(history_values(end.history)),
                Decimal::spec_zero(),
            ));
            assert(r == fitness_of(end, outcome));
        }
        r
    }
}

} // verus!
