//! Monte Carlo stress testing: many independent simulation runs and the
//! distribution of their final values.
use crate::decimal::{difference, product, Decimal};
use crate::risk::{
    all_wf, is_sorted, lemma_sorted_of_sorted, mean, prefix, sort_values, sorted_of, spec_mean,
    spec_tail_index, tail_index,
};
use crate::simulator::{trial, Simulator, SimulatorView};
use crate::strategy::Strategy;
use crate::types::SimError;
use vstd::prelude::*;

verus! {

/// Capital each trial starts with.
pub const INITIAL_CAPITAL: i128 = 1000000;

/// Steps each trial runs.
pub const TRIAL_STEPS: usize = 100;

/// The percentile ranks reported.
pub open spec fn ranks() -> Seq<u8> {
    seq![5u8, 25u8, 50u8, 75u8, 95u8]
}

/// The value at rank `rank` (in percent) of a sorted sample: the entry at
/// index `floor(rank × n / 100)`, kept within the sample; zero for an empty
/// sample.
pub open spec fn spec_percentile(sorted: Seq<Decimal>, rank: int) -> Decimal {
    if sorted.len() == 0 {
        Decimal::spec_zero()
    } else {
        let idx = rank * sorted.len() / 100;
        sorted[if idx < sorted.len() - 1 { idx } else { sorted.len() - 1 }]
    }
}

/// The value at risk of a sample of final values: the sorted sample's entry
/// at the tail index (zero past the end or for an empty sample).
pub open spec fn spec_sample_var(values: Seq<Decimal>, confidence: Decimal) -> Decimal {
    let idx = spec_tail_index(values.len() as int, confidence);
    if values.len() == 0 || idx >= values.len() {
        Decimal::spec_zero()
    } else {
        sorted_of(values)[idx]
    }
}

/// The conditional value at risk of a sample: the mean of the sorted entries
/// strictly below the tail index, zero when there are none.
pub open spec fn spec_sample_cvar(values: Seq<Decimal>, confidence: Decimal) -> Decimal {
    let idx = spec_tail_index(values.len() as int, confidence);
    let tail = sorted_of(values).take(if idx < values.len() { idx } else { values.len() as int });
    spec_mean(tail)
}

/// The shortfall of the sample mean below the starting capital, in percent
/// of it, and never below zero.
pub open spec fn spec_drawdown_proxy(values: Seq<Decimal>) -> Decimal {
    let initial = Decimal::spec_lit(INITIAL_CAPITAL as int, 0);
    let dd = initial.spec_difference(spec_mean(values)).spec_quotient_or_zero(initial).spec_product(
        Decimal::spec_lit(100, 0),
    );
    if values.len() == 0 || dd.units() <= 0 {
        Decimal::spec_zero()
    } else {
        dd
    }
}

/// What one trial can give: the recomputed final total value of a hundred
/// completed steps of a new simulator with the starting capital and the
/// balanced strategy, or the error of the step that stopped it.
pub open spec fn trial_outcome(r: Result<Decimal, SimError>) -> bool {
    let capital = Decimal::spec_lit(INITIAL_CAPITAL as int, 0);
    match r {
        Ok(v) => exists|end: SimulatorView|
            trial(capital, Strategy::spec_balanced(), TRIAL_STEPS as nat, end, Ok(()))
                && v == end.portfolio.with_total().total_value,
        Err(e) => exists|end: SimulatorView|
            trial(capital, Strategy::spec_balanced(), TRIAL_STEPS as nat, end, Err(e)),
    }
}

/// A sample entry: a trial's final value, or zero for a trial that failed.
pub open spec fn trial_sample(v: Decimal) -> bool {
    trial_outcome(Ok(v)) || (v == Decimal::spec_zero() && exists|e: SimError|
        trial_outcome(Err(e)))
}

/// Summary statistics of a batch of runs.
#[derive(Debug)]
pub struct MonteCarloResults {
    pub iterations: usize,
    pub expected_value: Decimal,
    pub value_at_risk: Decimal,
    pub conditional_var: Decimal,
    pub max_drawdown_pct: Decimal,
    pub confidence_level: Decimal,
    pub distribution: Vec<Decimal>,
    /// Rank (in percent) and the value at it, for ranks 5, 25, 50, 75, 95.
    pub percentiles: Vec<(u8, Decimal)>,
}

/// The statistics of a sample of final values, as the functions above
/// describe them.
pub open spec fn summary_match(r: MonteCarloResults, confidence: Decimal) -> bool {
    let values = r.distribution@;
    let sorted = sorted_of(values);
    &&& r.iterations == values.len()
    &&& r.expected_value == spec_mean(values)
    &&& r.value_at_risk == spec_sample_var(values, confidence)
    &&& r.conditional_var == spec_sample_cvar(values, confidence)
    &&& r.max_drawdown_pct == spec_drawdown_proxy(values)
    &&& r.confidence_level == confidence
    &&& r.percentiles@.len() == 5
    &&& forall|i: int|
        0 <= i < 5 ==> (#[trigger] r.percentiles@[i]).0 == ranks()[i] && r.percentiles@[i].1
            == spec_percentile(sorted, ranks()[i] as int)
}

/// The value at `rank` percent of a sorted sample, as [`spec_percentile`]
/// describes it.
pub fn percentile(sorted: &Vec<Decimal>, rank: u8) -> (r: Decimal)
    requires
        rank <= 100,
    ensures
        r == spec_percentile(sorted@, rank as int),
{
    let n = sorted.len();
    if n == 0 {
        return Decimal::zero();
    }
    assert((rank as u128) * (n as u128) <= 100 * 0xffff_ffff_ffff_ffffu128) by (nonlinear_arith)
        requires
            rank <= 100,
            n <= 0xffff_ffff_ffff_ffffu128,
    ;
    let wide: u128 = (rank as u128) * (n as u128) / 100;
    assert(wide <= n) by (nonlinear_arith)
        requires
            wide == (rank as int) * (n as int) / 100,
            rank <= 100,
    ;
    let idx = wide as usize;
    if idx < n - 1 {
        sorted[idx]
    } else {
        sorted[n - 1]
    }
}

/// Higher ranks never give lower values.
pub proof fn lemma_percentile_monotone(sorted: Seq<Decimal>, a: int, b: int)
    requires
        is_sorted(sorted),
        0 <= a <= b <= 100,
    ensures
        spec_percentile(sorted, a).units() <= spec_percentile(sorted, b).units(),
{
    if sorted.len() > 0 {
        let n = sorted.len() as int;
        assert(a * n / 100 <= b * n / 100) by (nonlinear_arith)
            requires
                0 <= a <= b,
                n >= 0,
        ;
        assert(a * n / 100 >= 0) by (nonlinear_arith)
            requires
                0 <= a,
                n >= 0,
        ;
    }
}

/// The percentiles of any sample, at ranks 5, 25, 50, 75 and 95, never
/// decrease from one rank to the next.
pub proof fn lemma_percentiles_ordered(values: Seq<Decimal>)
    ensures
        forall|i: int|
            0 <= i < 4 ==> spec_percentile(sorted_of(values), (#[trigger] ranks()[i]) as int).units()
                <= spec_percentile(sorted_of(values), ranks()[i + 1] as int).units(),
{
    lemma_sorted_of_sorted(values);
    assert forall|i: int| 0 <= i < 4 implies spec_percentile(
        sorted_of(values),
        (#[trigger] ranks()[i]) as int,
    ).units() <= spec_percentile(sorted_of(values), ranks()[i + 1] as int).units() by {
        lemma_percentile_monotone(sorted_of(values), ranks()[i] as int, ranks()[i + 1] as int);
    }
}

/// The statistics of a sample of final values at `confidence`.
pub fn summarize(values: Vec<Decimal>, confidence: Decimal) -> (r: MonteCarloResults)
    requires
        all_wf(values@),
        confidence.wf(),
    ensures
        r.distribution@ == values@,
        summary_match(r, confidence),
{
    let n = values.len();
    let sorted = sort_values(&values);
    proof {
        lemma_sorted_of_sorted(values@);
    }
    let expected_value = mean(&values);
    let idx = tail_index(n, confidence);
    let value_at_risk = if n == 0 || idx >= n {
        Decimal::zero()
    } else {
        sorted[idx]
    };
    let k = if idx < n {
        idx
    } else {
        n
    };
    let conditional_var = mean(&prefix(&sorted, k));
    let initial = Decimal::new(INITIAL_CAPITAL, 0);
    let dd = product(
        difference(initial, expected_value).quotient_or_zero(&initial),
        Decimal::new(100, 0),
    );
    let max_drawdown_pct = if n == 0 || dd.le(&Decimal::zero()) {
        Decimal::zero()
    } else {
        dd
    };
    proof {
        crate::decimal::lemma_units_sign(Decimal::spec_zero());
    }
    let mut percentiles: Vec<(u8, Decimal)> = Vec::new();
    percentiles.push((5u8, percentile(&sorted, 5)));
    percentiles.push((25u8, percentile(&sorted, 25)));
    percentiles.push((50u8, percentile(&sorted, 50)));
    percentiles.push((75u8, percentile(&sorted, 75)));
    percentiles.push((95u8, percentile(&sorted, 95)));
    let r = MonteCarloResults {
        iterations: n,
        expected_value,
        value_at_risk,
        conditional_var,
        max_drawdown_pct,
        confidence_level: confidence,
        distribution: values,
        percentiles,
    };
    proof {
        assert forall|i: int| 0 <= i < 5 implies (#[trigger] r.percentiles@[i]).0 == ranks()[i]
            && r.percentiles@[i].1 == spec_percentile(sorted_of(r.distribution@), ranks()[i] as int) by {}
    }
    r
}

/// Runs many independent simulations of the balanced strategy and
/// summarises the distribution of their final values.
pub struct MonteCarloEngine {
    iterations: usize,
    scenarios: usize,
}

impl MonteCarloEngine {
    pub fn new(iterations: usize, scenarios: usize) -> (r: MonteCarloEngine)
        ensures
            r.iterations() == iterations,
            r.scenarios() == scenarios,
    {
        MonteCarloEngine { iterations, scenarios }
    }

    pub closed spec fn iterations(self) -> usize {
        self.iterations
    }

    pub closed spec fn scenarios(self) -> usize {
        self.scenarios
    }

    /// One trial: a fresh simulator with the starting capital and the
    /// balanced strategy, stepped a hundred times and finished; its final
    /// value, or the error that stopped a step.
    pub fn run_single_simulation(&self) -> (r: Result<Decimal, SimError>)
        ensures
            trial_outcome(r),
            r matches Ok(v) ==> v.wf(),
    {
        let (simulator, outcome) = Simulator::run(
            Decimal::new(INITIAL_CAPITAL, 0),
            Strategy::balanced(),
            TRIAL_STEPS,
        );
        let ghost end = simulator@;
        let ghost capital = Decimal::spec_lit(INITIAL_CAPITAL as int, 0);
        proof {
            assert(trial(capital, Strategy::spec_balanced(), TRIAL_STEPS as nat, end, outcome));
        }
        match outcome {
            Ok(()) => {},
            Err(e) => {
                return Err(e);
            },
        }
        let results = simulator.finalize();
        proof {
            assert(results.final_value == end.portfolio.with_total().total_value);
        }
        Ok(results.final_value)
    }

    /// Runs `iterations` independent trials (a failed trial counts as a
    /// final value of zero) and summarises their final values at
    /// `confidence_level`.
    pub fn run_stress_test(&mut self, confidence_level: Decimal) -> (r: Result<MonteCarloResults, SimError>)
        requires
            confidence_level.wf(),
        ensures
            r matches Ok(res) && res.distribution.len() == old(self).iterations() && summary_match(
                res,
                confidence_level,
            ) && forall|i: int|
                0 <= i < res.distribution.len() ==> trial_sample(#[trigger] res.distribution@[i]),
            final(self).iterations() == old(self).iterations(),
    {
        let mut final_values: Vec<Decimal> = Vec::new();
        let mut i: usize = 0;
        while i < self.iterations
            invariant
                i <= self.iterations,
                final_values.len() == i,
                all_wf(final_values@),
                forall|j: int| 0 <= j < i ==> trial_sample(#[trigger] final_values@[j]),
            decreases self.iterations - i,
        {
            let outcome = self.run_single_simulation();
            let value = match outcome {
                Ok(v) => v,
                Err(e) => {
                    proof {
                        assert(trial_outcome(Err(e)));
                    }
                    Decimal::zero()
                },
            };
            final_values.push(value);
            i += 1;
        }
        Ok(summarize(final_values, confidence_level))
    }
}

} // verus!
