//! The step-wise simulation engine.
use crate::decimal::{difference, product, quotient, sum, Decimal};
use crate::risk::{
    historical_cvar, historical_var, history_values, max_drawdown_of, returns_of, sharpe_of,
    spec_historical_cvar, spec_historical_var, spec_max_drawdown, spec_returns, spec_sharpe,
    spec_volatility, values_of, volatility_of,
};
use crate::strategy::{RoutingStrategy, Strategy};
use crate::types::{
    holds, index_of, insert_position, now_utc, snapshot_of, Asset, AssetType, AssetView,
    DecisionView, Portfolio, PortfolioSnapshot, PortfolioView, Position, PositionView,
    PriceQuote, RoutingDecision, SimError, SimulationResults, Timestamp, decision_views,
};
use rand::Rng;
use vstd::prelude::*;

verus! {

/// Mantissa of one day in years, `1/365`, to 28 decimal places.
pub const DT_MANTISSA: i128 = 27397260273972602739726027;

/// Mantissa of the square root of one day in years, `√(1/365)`, to 28 decimal
/// places.
pub const SQRT_DT_MANTISSA: i128 = 523423922590213703538857418;

/// One simulated day, in years.
pub open spec fn dt() -> Decimal {
    Decimal::spec_lit(DT_MANTISSA as int, 28)
}

/// The market prices recorded so far: symbol and price, each symbol once.
pub open spec fn quotes_unique(m: Seq<(Seq<char>, Decimal)>) -> bool {
    forall|i: int, j: int| 0 <= i < m.len() && 0 <= j < m.len() && i != j ==> m[i].0 != m[j].0
}

pub open spec fn quoted(m: Seq<(Seq<char>, Decimal)>, sym: Seq<char>) -> bool {
    exists|i: int| 0 <= i < m.len() && m[i].0 == sym
}

pub open spec fn quote_index(m: Seq<(Seq<char>, Decimal)>, sym: Seq<char>) -> int {
    choose|i: int| 0 <= i < m.len() && m[i].0 == sym
}

/// The recorded price of `sym`, or `1.0` when there is none.
pub open spec fn price_or_one(m: Seq<(Seq<char>, Decimal)>, sym: Seq<char>) -> Decimal {
    if quoted(m, sym) {
        m[quote_index(m, sym)].1
    } else {
        Decimal::spec_lit(10, 1)
    }
}

/// The market prices with `sym` set to `price`.
pub open spec fn set_quote(m: Seq<(Seq<char>, Decimal)>, sym: Seq<char>, price: Decimal) -> Seq<
    (Seq<char>, Decimal),
> {
    if quoted(m, sym) {
        m.update(quote_index(m, sym), (sym, price))
    } else {
        m.push((sym, price))
    }
}

/// The market prices after the prices of `ps` are recorded in order.
pub open spec fn record_prices(m: Seq<(Seq<char>, Decimal)>, ps: Seq<PositionView>) -> Seq<
    (Seq<char>, Decimal),
>
    decreases ps.len(),
{
    if ps.len() == 0 {
        m
    } else {
        let last = ps.last();
        set_quote(record_prices(m, ps.drop_last()), last.symbol(), last.asset.current_price)
    }
}

/// `price × (1 + yield_rate × dt + shock × volatility)`: one step of the price
/// process, where `shock` is a centred uniform draw already scaled by `√dt`.
pub open spec fn evolved_price(a: AssetView, shock: Decimal) -> Decimal {
    let drift_term = a.yield_rate.spec_product(dt());
    let shock_term = shock.spec_product(a.volatility);
    a.current_price.spec_product(Decimal::spec_lit(1, 0).spec_sum(drift_term.spec_sum(shock_term)))
}

/// Every position moved to its evolved price, the `i`-th by `shocks[i]`.
pub open spec fn evolve_positions(ps: Seq<PositionView>, shocks: Seq<Decimal>) -> Seq<PositionView> {
    Seq::new(ps.len(), |i: int| ps[i].with_price(evolved_price(ps[i].asset, shocks[i])))
}

/// The portfolio after one routing decision, or the error that stops it. A
/// top-up of a held symbol adds `amount / price` to the quantity and `amount`
/// to the value (the value is not recomputed from the price), paid out of
/// cash; a new symbol opens a position at the recorded price (or `1.0`), its
/// value paid out of cash. The execution cost is then taken from cash in
/// every case.
pub open spec fn execute_decision(
    p: PortfolioView,
    m: Seq<(Seq<char>, Decimal)>,
    d: DecisionView,
) -> Result<PortfolioView, SimError> {
    if d.amount.units() > p.cash.units() {
        Err(SimError::InsufficientCash)
    } else if holds(p.positions, d.target_asset) {
        let i = index_of(p.positions, d.target_asset);
        let pos = p.positions[i];
        match d.amount.spec_quotient(pos.asset.current_price) {
            None => Err(SimError::InvalidPrice),
            Some(q) => {
                let topped = PositionView {
                    quantity: pos.quantity.spec_sum(q),
                    current_value: pos.current_value.spec_sum(d.amount),
                    ..pos
                };
                Ok(
                    PortfolioView {
                        positions: p.positions.update(i, topped),
                        cash: p.cash.spec_difference(d.amount).spec_difference(d.execution_cost),
                        ..p
                    },
                )
            },
        }
    } else {
        let price = price_or_one(m, d.target_asset);
        match d.amount.spec_quotient(price) {
            None => Err(SimError::InvalidPrice),
            Some(q) => {
                let asset = AssetView {
                    symbol: d.target_asset,
                    name: "Asset "@ + d.target_asset,
                    asset_type: AssetType::Crypto,
                    current_price: price,
                    volatility: Decimal::spec_lit(2, 2),
                    yield_rate: d.expected_yield,
                };
                let pos = PositionView {
                    asset,
                    quantity: q,
                    entry_price: price,
                    current_value: q.spec_product(price),
                };
                let added = (PortfolioView {
                    positions: insert_position(p.positions, pos),
                    cash: p.cash.spec_difference(pos.current_value),
                    ..p
                }).with_total();
                Ok(PortfolioView { cash: added.cash.spec_difference(d.execution_cost), ..added })
            },
        }
    }
}

/// The decisions executed in order: the portfolio reached, and the error that
/// stopped the run, if one did (the portfolio is then as the earlier
/// decisions left it).
pub open spec fn execute_all(
    p: PortfolioView,
    m: Seq<(Seq<char>, Decimal)>,
    ds: Seq<DecisionView>,
) -> (PortfolioView, Option<SimError>)
    decreases ds.len(),
{
    if ds.len() == 0 {
        (p, None)
    } else {
        let (q, e) = execute_all(p, m, ds.drop_last());
        if e is Some {
            (q, e)
        } else {
            match execute_decision(q, m, ds.last()) {
                Ok(r) => (r, None),
                Err(err) => (q, Some(err)),
            }
        }
    }
}

/// A routing decision is executed only when its amount does not exceed the
/// cash, and cash then falls by exactly the amount applied (the amount for a
/// top-up of a held symbol, the value of the position it opens otherwise) and
/// then by the execution cost.
pub proof fn lemma_cash_after_decision(
    p: PortfolioView,
    m: Seq<(Seq<char>, Decimal)>,
    d: DecisionView,
)
    requires
        execute_decision(p, m, d) is Ok,
    ensures
        d.amount.units() <= p.cash.units(),
        holds(p.positions, d.target_asset) ==> execute_decision(p, m, d).unwrap().cash
            == p.cash.spec_difference(d.amount).spec_difference(d.execution_cost),
        !holds(p.positions, d.target_asset) ==> {
            let q = execute_decision(p, m, d).unwrap();
            &&& q.positions.len() == p.positions.len() + 1
            &&& q.positions.last().symbol() == d.target_asset
            &&& q.cash == p.cash.spec_difference(q.positions.last().current_value).spec_difference(
                d.execution_cost,
            )
        },
{
}

/// Once a run of decisions has stopped on an error, later decisions change
/// nothing.
pub proof fn lemma_stopped_run(
    p: PortfolioView,
    m: Seq<(Seq<char>, Decimal)>,
    ds: Seq<DecisionView>,
    k: int,
)
    requires
        0 <= k <= ds.len(),
        execute_all(p, m, ds.take(k)).1 is Some,
    ensures
        execute_all(p, m, ds) == execute_all(p, m, ds.take(k)),
    decreases ds.len(),
{
    if k < ds.len() {
        assert(ds.drop_last().take(k) =~= ds.take(k));
        lemma_stopped_run(p, m, ds.drop_last(), k);
    } else {
        assert(ds.take(k) =~= ds);
    }
}

/// Number of equally likely draws behind one shock.
pub const DRAWS: u64 = 1000000000000000000;

/// A uniform shock on `[-0.5, 0.5)`, drawn as a whole number below `DRAWS`,
/// scaled by `√dt`.
pub open spec fn scaled_shock(k: int) -> Decimal {
    Decimal::spec_lit(k - 500000000000000000, 18).spec_product(
        Decimal::spec_lit(SQRT_DT_MANTISSA as int, 28),
    )
}

/// Every shock is a scaled uniform draw.
pub open spec fn drawn_shocks(shocks: Seq<Decimal>) -> bool {
    forall|i: int|
        0 <= i < shocks.len() ==> exists|k: int| 0 <= k < DRAWS && #[trigger] shocks[i] == scaled_shock(k)
}

/// Relies on rand's `thread_rng` and `Rng::gen_range`: a value below `bound`
/// (the range is not empty, so the call does not panic).
#[verifier::external_body]
pub(crate) fn draw_below(bound: u64) -> (r: u64)
    requires
        bound > 0,
    ensures
        r < bound,
{
    rand::thread_rng().gen_range(0..bound)
}

/// `n` independent shocks.
fn draw_shocks(n: usize) -> (r: Vec<Decimal>)
    ensures
        r.len() == n,
        forall|i: int|
            0 <= i < n ==> (#[trigger] r@[i]).wf() && exists|k: int|
                0 <= k < DRAWS && r@[i] == scaled_shock(k),
{
    let sqrt_dt = Decimal::new(SQRT_DT_MANTISSA, 28);
    let mut shocks: Vec<Decimal> = Vec::new();
    let mut i: usize = 0;
    while i < n
        invariant
            i <= n,
            shocks.len() == i,
            sqrt_dt == Decimal::spec_lit(SQRT_DT_MANTISSA as int, 28),
            forall|j: int|
                0 <= j < i ==> (#[trigger] shocks@[j]).wf() && exists|k: int|
                    0 <= k < DRAWS && shocks@[j] == scaled_shock(k),
        decreases n - i,
    {
        let k = draw_below(DRAWS);
        let unit = Decimal::new(k as i128 - 500000000000000000, 18);
        let shock = product(unit, sqrt_dt);
        proof {
            assert(shock == scaled_shock(k as int));
        }
        shocks.push(shock);
        i += 1;
    }
    shocks
}

/// The plain state of a simulator.
pub struct SimulatorView {
    pub portfolio: PortfolioView,
    pub strategy: Strategy,
    pub step_count: usize,
    pub history: Seq<PortfolioSnapshot>,
    pub market: Seq<(Seq<char>, Decimal)>,
}

impl SimulatorView {
    pub open spec fn wf(self) -> bool {
        &&& self.portfolio.wf()
        &&& quotes_unique(self.market)
        &&& forall|i: int| 0 <= i < self.market.len() ==> (#[trigger] self.market[i]).1.wf()
        &&& forall|i: int|
            0 <= i < self.history.len() ==> {
                &&& (#[trigger] self.history[i]).total_value.wf()
                &&& self.history[i].cash.wf()
                &&& self.history[i].positions_value.wf()
            }
    }
}

/// One step from `s`, with the `i`-th held position moved by `shocks[i]` and
/// decisions stamped `now`: the state reached and whether the step completed.
pub open spec fn spec_step(s: SimulatorView, shocks: Seq<Decimal>, now: Timestamp) -> (
    SimulatorView,
    Result<(), SimError>,
) {
    let count = if s.step_count < usize::MAX {
        (s.step_count + 1) as usize
    } else {
        s.step_count
    };
    let positions = evolve_positions(s.portfolio.positions, shocks);
    let market = record_prices(s.market, positions);
    let moved = PortfolioView { positions, ..s.portfolio };
    let ds = s.strategy.spec_decisions(moved, now);
    let (executed, e) = execute_all(moved, market, ds);
    match e {
        Some(err) => (
            SimulatorView { portfolio: executed, step_count: count, market, ..s },
            Err(err),
        ),
        None => {
            let done = executed.with_total();
            (
                SimulatorView {
                    portfolio: done,
                    step_count: count,
                    market,
                    history: s.history.push(snapshot_of(done, now)),
                    ..s
                },
                Ok(()),
            )
        },
    }
}

/// The results of finishing a run in state `s`: the total value is
/// recomputed, returns are measured against the first snapshot's total value
/// (zero without snapshots), and the metrics are taken over the snapshot
/// history, the value at risk at 95% confidence against the final value.
pub open spec fn results_match(r: SimulationResults, s: SimulatorView) -> bool {
    let p = s.portfolio.with_total();
    let values = history_values(s.history);
    let initial = if s.history.len() > 0 {
        s.history[0].total_value
    } else {
        Decimal::spec_zero()
    };
    let total_return = p.total_value.spec_difference(initial);
    let series = spec_returns(values);
    let confidence = Decimal::spec_lit(95, 2);
    &&& r.initial_value == initial
    &&& r.final_value == p.total_value
    &&& r.total_return == total_return
    &&& r.total_return_pct == (if initial.units() > 0 {
        total_return.spec_quotient_or_zero(initial).spec_product(Decimal::spec_lit(100, 0))
    } else {
        Decimal::spec_zero()
    })
    &&& r.sharpe_ratio == spec_sharpe(series, Decimal::spec_zero())
    &&& r.max_drawdown_pct == spec_max_drawdown(values)
    &&& r.volatility_pct == spec_volatility(series)
    &&& r.value_at_risk == spec_historical_var(series, confidence, p.total_value)
    &&& r.conditional_var == spec_historical_cvar(series, confidence, p.total_value)
    &&& r.portfolio_history@ == s.history
}

/// A state as `Simulator::new(capital, strategy)` leaves it (its timestamp
/// aside).
pub open spec fn fresh(s: SimulatorView, capital: Decimal, strategy: Strategy) -> bool {
    &&& s.wf()
    &&& s.portfolio.positions.len() == 0
    &&& s.portfolio.cash == capital
    &&& s.portfolio.total_value == capital
    &&& s.strategy == strategy
    &&& s.step_count == 0
    &&& s.history.len() == 0
    &&& s.market.len() == 0
}

/// `n` steps from `s`, the `i`-th with shocks `shocks[i]` at `times[i]`,
/// stopping at the first step that fails: the state reached and the outcome
/// of the last step taken.
pub open spec fn run_steps(
    s: SimulatorView,
    shocks: Seq<Seq<Decimal>>,
    times: Seq<Timestamp>,
    n: nat,
) -> (SimulatorView, Result<(), SimError>)
    decreases n,
{
    if n == 0 {
        (s, Ok(()))
    } else {
        let (prev, r) = run_steps(s, shocks, times, (n - 1) as nat);
        if r is Err {
            (prev, r)
        } else {
            spec_step(prev, shocks[n - 1], times[n - 1])
        }
    }
}

/// A run of `n` steps of a new simulator with `capital` and `strategy`, on
/// some drawn shocks and times, ends in `end` with outcome `res`.
pub open spec fn trial(
    capital: Decimal,
    strategy: Strategy,
    n: nat,
    end: SimulatorView,
    res: Result<(), SimError>,
) -> bool {
    exists|s0: SimulatorView, shocks: Seq<Seq<Decimal>>, times: Seq<Timestamp>|
        {
            &&& fresh(s0, capital, strategy)
            &&& shocks.len() == n
            &&& times.len() == n
            &&& forall|i: int| 0 <= i < n ==> drawn_shocks(#[trigger] shocks[i])
            &&& run_steps(s0, shocks, times, n) == (end, res)
        }
}

proof fn lemma_run_prefix(
    s: SimulatorView,
    a: Seq<Seq<Decimal>>,
    ta: Seq<Timestamp>,
    b: Seq<Seq<Decimal>>,
    tb: Seq<Timestamp>,
    n: nat,
)
    requires
        n <= a.len(),
        n <= b.len(),
        n <= ta.len(),
        n <= tb.len(),
        forall|i: int| 0 <= i < n ==> a[i] == b[i] && ta[i] == tb[i],
    ensures
        run_steps(s, a, ta, n) == run_steps(s, b, tb, n),
    decreases n,
{
    if n > 0 {
        lemma_run_prefix(s, a, ta, b, tb, (n - 1) as nat);
    }
}

proof fn lemma_run_stopped(s: SimulatorView, a: Seq<Seq<Decimal>>, ta: Seq<Timestamp>, k: nat, n: nat)
    requires
        k <= n,
        run_steps(s, a, ta, k).1 is Err,
    ensures
        run_steps(s, a, ta, n) == run_steps(s, a, ta, k),
    decreases n,
{
    if n > k {
        lemma_run_stopped(s, a, ta, k, (n - 1) as nat);
    }
}

/// "Asset " followed by the symbol.
fn asset_display_name(symbol: &String) -> (r: String)
    ensures
        r@ == "Asset "@ + symbol@,
{
    "Asset ".to_owned().concat(symbol.as_str())
}

/// Advances a portfolio through discrete time steps under a strategy.
pub struct Simulator {
    portfolio: Portfolio,
    strategy: Strategy,
    step_count: usize,
    portfolio_history: Vec<PortfolioSnapshot>,
    market_state: Vec<PriceQuote>,
}

impl View for Simulator {
    type V = SimulatorView;

    closed spec fn view(&self) -> SimulatorView {
        SimulatorView {
            portfolio: self.portfolio@,
            strategy: self.strategy,
            step_count: self.step_count,
            history: self.portfolio_history@,
            market: self.market_state@.map_values(|q: PriceQuote| q@),
        }
    }
}

impl Simulator {
    /// A simulator holding `initial_capital` in cash, before its first step.
    pub fn new(initial_capital: Decimal, strategy: Strategy) -> (r: Simulator)
        requires
            initial_capital.wf(),
        ensures
            r@.wf(),
            r@.portfolio.positions.len() == 0,
            r@.portfolio.cash == initial_capital,
            r@.portfolio.total_value == initial_capital,
            r@.strategy == strategy,
            r@.step_count == 0,
            r@.history.len() == 0,
            r@.market.len() == 0,
    {
        let r = Simulator {
            portfolio: Portfolio::new(initial_capital),
            strategy,
            step_count: 0,
            portfolio_history: Vec::new(),
            market_state: Vec::new(),
        };
        proof {
            assert(r@.market =~= Seq::<(Seq<char>, Decimal)>::empty());
        }
        r
    }

    /// The recorded market price of `sym`, if any.
    fn market_price(&self, sym: &String) -> (r: Option<Decimal>)
        requires
            self@.wf(),
        ensures
            r is Some <==> quoted(self@.market, sym@),
            r matches Some(p) ==> p == self@.market[quote_index(self@.market, sym@)].1 && p.wf(),
    {
        let mut i: usize = 0;
        while i < self.market_state.len()
            invariant
                self@.wf(),
                i <= self.market_state.len(),
                forall|j: int| 0 <= j < i ==> self@.market[j].0 != sym@,
            decreases self.market_state.len() - i,
        {
            if self.market_state[i].symbol == *sym {
                proof {
                    assert(self@.market[i as int].0 == sym@);
                    let k = quote_index(self@.market, sym@);
                    assert(k == i);
                }
                return Some(self.market_state[i].price);
            }
            i += 1;
        }
        None
    }

    /// Records `price` as the market price of `sym`.
    fn set_market_price(&mut self, sym: &String, price: Decimal)
        requires
            old(self)@.wf(),
            price.wf(),
        ensures
            final(self)@ == (SimulatorView {
                market: set_quote(old(self)@.market, sym@, price),
                ..old(self)@
            }),
            final(self)@.wf(),
    {
        let ghost m = self@.market;
        let mut i: usize = 0;
        while i < self.market_state.len()
            invariant
                self@ == old(self)@,
                self@.wf(),
                price.wf(),
                m == self@.market,
                i <= self.market_state.len(),
                forall|j: int| 0 <= j < i ==> m[j].0 != sym@,
            decreases self.market_state.len() - i,
        {
            let found = self.market_state[i].symbol == *sym;
            proof {
                assert(m[i as int] == self.market_state@[i as int]@);
            }
            if found {
                proof {
                    assert(m[i as int].0 == sym@);
                    assert(quote_index(m, sym@) == i);
                }
                self.market_state.set(i, PriceQuote { symbol: sym.clone(), price });
                proof {
                    assert(self@.market =~= m.update(i as int, (sym@, price)));
                    assert forall|k: int| 0 <= k < m.len() implies #[trigger] self@.market[k].0
                        == m[k].0 by {}
                    assert(quotes_unique(self@.market));
                    assert forall|k: int| 0 <= k < m.len() implies (#[trigger] self@.market[k]).1.wf() by {
                        if k != i {
                            assert(self@.market[k] == m[k]);
                            assert(old(self)@.market[k] == m[k]);
                            assert(old(self)@.market[k].1.wf());
                        } else {
                            assert(self@.market[k] == (sym@, price));
                        }
                    }
                }
                return ;
            }
            i += 1;
        }
        self.market_state.push(PriceQuote { symbol: sym.clone(), price });
        proof {
            assert(self@.market =~= m.push((sym@, price)));
        }
    }

    /// Moves every held position one step along the price process, the `i`-th
    /// by `shocks[i]`, and records the new prices as market prices.
    fn update_market_prices(&mut self, shocks: &Vec<Decimal>)
        requires
            old(self)@.wf(),
            shocks.len() == old(self)@.portfolio.positions.len(),
            forall|i: int| 0 <= i < shocks.len() ==> (#[trigger] shocks@[i]).wf(),
        ensures
            final(self)@.wf(),
            final(self)@ == (SimulatorView {
                portfolio: PortfolioView {
                    positions: evolve_positions(old(self)@.portfolio.positions, shocks@),
                    ..old(self)@.portfolio
                },
                market: record_prices(
                    old(self)@.market,
                    evolve_positions(old(self)@.portfolio.positions, shocks@),
                ),
                ..old(self)@
            }),
    {
        let ghost ps0 = self@.portfolio.positions;
        let ghost evolved = evolve_positions(ps0, shocks@);
        let day = Decimal::new(DT_MANTISSA, 28);
        let one = Decimal::new(1, 0);
        let mut i: usize = 0;
        while i < self.portfolio.positions.len()
            invariant
                self@.wf(),
                shocks.len() == ps0.len(),
                forall|i: int| 0 <= i < shocks.len() ==> (#[trigger] shocks@[i]).wf(),
                ps0 == old(self)@.portfolio.positions,
                evolved == evolve_positions(ps0, shocks@),
                day == dt(),
                one == Decimal::spec_lit(1, 0),
                i <= ps0.len(),
                self@.portfolio.positions.len() == ps0.len(),
                forall|j: int| 0 <= j < i ==> self@.portfolio.positions[j] == evolved[j],
                forall|j: int| i <= j < ps0.len() ==> self@.portfolio.positions[j] == ps0[j],
                self@.market == record_prices(old(self)@.market, evolved.take(i as int)),
                self@.portfolio.cash == old(self)@.portfolio.cash,
                self@.portfolio.total_value == old(self)@.portfolio.total_value,
                self@.portfolio.timestamp == old(self)@.portfolio.timestamp,
                self@.strategy == old(self)@.strategy,
                self@.step_count == old(self)@.step_count,
                self@.history == old(self)@.history,
            decreases ps0.len() - i,
        {
            let ghost before = self@.portfolio.positions;
            let mut position = self.portfolio.positions.remove(i);
            proof {
                assert(position@ == before[i as int]);
                assert(before[i as int].wf());
            }
            let drift_term = product(position.asset.yield_rate, day);
            let shock_term = product(shocks[i], position.asset.volatility);
            let new_price = product(
                position.asset.current_price,
                sum(one, sum(drift_term, shock_term)),
            );
            position.update_price(new_price);
            let sym = position.asset.symbol.clone();
            self.portfolio.positions.insert(i, position);
            proof {
                assert(self@.portfolio.positions =~= before.update(i as int, evolved[i as int]));
                assert forall|a: int, b: int|
                    0 <= a < ps0.len() && 0 <= b < ps0.len() && a != b implies (
                    #[trigger] self@.portfolio.positions[a]).symbol()
                    != (#[trigger] self@.portfolio.positions[b]).symbol() by {
                    assert(self@.portfolio.positions[a].symbol() == before[a].symbol());
                    assert(self@.portfolio.positions[b].symbol() == before[b].symbol());
                }
                assert forall|j: int| 0 <= j < ps0.len() implies (
                #[trigger] self@.portfolio.positions[j]).wf() by {
                    assert(before[j].wf());
                }
                assert(evolved.take(i as int + 1).drop_last() =~= evolved.take(i as int));
            }
            self.set_market_price(&sym, new_price);
            i += 1;
        }
        proof {
            assert(evolved.take(i as int) =~= evolved);
            assert(self@.portfolio.positions =~= evolved);
        }
    }

    /// Applies one routing decision, as [`execute_decision`] describes; on an
    /// error nothing is changed.
    fn execute_routing(&mut self, decision: &RoutingDecision) -> (r: Result<(), SimError>)
        requires
            old(self)@.wf(),
            decision.wf(),
        ensures
            final(self)@.wf(),
            match execute_decision(old(self)@.portfolio, old(self)@.market, decision@) {
                Ok(p) => r is Ok && final(self)@ == (SimulatorView { portfolio: p, ..old(self)@ }),
                Err(e) => r == Err::<(), SimError>(e) && final(self)@ == old(self)@,
            },
    {
        if decision.amount.gt(&self.portfolio.cash) {
            return Err(SimError::InsufficientCash);
        }
        match self.portfolio.position_index(&decision.target_asset) {
            Some(i) => {
                let price = self.portfolio.positions[i].asset.current_price;
                let additional = match quotient(decision.amount, price) {
                    Some(q) => q,
                    None => {
                        return Err(SimError::InvalidPrice);
                    },
                };
                let ghost before = self@.portfolio.positions;
                let mut position = self.portfolio.positions.remove(i);
                proof {
                    assert(position@ == before[i as int]);
                    assert(before[i as int].wf());
                }
                position.quantity = sum(position.quantity, additional);
                position.current_value = sum(position.current_value, decision.amount);
                self.portfolio.positions.insert(i, position);
                self.portfolio.cash = difference(self.portfolio.cash, decision.amount);
                proof {
                    assert(self@.portfolio.positions =~= before.update(i as int, position@));
                    assert forall|a: int, b: int|
                        0 <= a < before.len() && 0 <= b < before.len() && a != b implies (
                        #[trigger] self@.portfolio.positions[a]).symbol()
                        != (#[trigger] self@.portfolio.positions[b]).symbol() by {
                        assert(self@.portfolio.positions[a].symbol() == before[a].symbol());
                        assert(self@.portfolio.positions[b].symbol() == before[b].symbol());
                    }
                    assert forall|j: int| 0 <= j < before.len() implies (
                    #[trigger] self@.portfolio.positions[j]).wf() by {
                        assert(before[j].wf());
                    }
                }
            },
            None => {
                let price = match self.market_price(&decision.target_asset) {
                    Some(p) => p,
                    None => Decimal::new(10, 1),
                };
                let quantity = match quotient(decision.amount, price) {
                    Some(q) => q,
                    None => {
                        return Err(SimError::InvalidPrice);
                    },
                };
                let asset = Asset {
                    symbol: decision.target_asset.clone(),
                    name: asset_display_name(&decision.target_asset),
                    asset_type: AssetType::Crypto,
                    current_price: price,
                    volatility: Decimal::new(2, 2),
                    yield_rate: decision.expected_yield,
                };
                let position = Position::new(asset, quantity, price);
                self.portfolio.add_position(position);
            },
        }
        self.portfolio.cash = difference(self.portfolio.cash, decision.execution_cost);
        Ok(())
    }

    /// Appends a snapshot of the portfolio taken at `now`.
    fn record_snapshot(&mut self, now: Timestamp)
        requires
            old(self)@.wf(),
        ensures
            final(self)@.wf(),
            final(self)@ == (SimulatorView {
                history: old(self)@.history.push(snapshot_of(old(self)@.portfolio, now)),
                ..old(self)@
            }),
    {
        let positions_value = self.portfolio.positions_value();
        let snapshot = PortfolioSnapshot {
            timestamp: now,
            total_value: self.portfolio.total_value,
            cash: self.portfolio.cash,
            positions_value,
            positions_count: self.portfolio.positions.len(),
        };
        self.portfolio_history.push(snapshot);
        proof {
            assert(self@.history =~= old(self)@.history.push(snapshot_of(old(self)@.portfolio, now)));
        }
    }

    /// One step with the given shocks (the `i`-th for the `i`-th held
    /// position) and decision time, exactly as [`spec_step`] describes: prices
    /// move, the strategy decides, the decisions are executed in order, the
    /// total value is recomputed and a snapshot is recorded. A decision that
    /// fails stops the step with its error.
    pub fn step_with(&mut self, shocks: &Vec<Decimal>, now: Timestamp) -> (r: Result<(), SimError>)
        requires
            old(self)@.wf(),
            shocks.len() == old(self)@.portfolio.positions.len(),
            forall|i: int| 0 <= i < shocks.len() ==> (#[trigger] shocks@[i]).wf(),
        ensures
            final(self)@.wf(),
            (final(self)@, r) == spec_step(old(self)@, shocks@, now),
    {
        if self.step_count < usize::MAX {
            self.step_count = self.step_count + 1;
        }
        self.update_market_prices(shocks);
        let ghost moved = self@.portfolio;
        let ghost market = self@.market;
        let decisions = match self.strategy.generate_routing_decisions(
            &self.portfolio,
            &self.market_state,
            now,
        ) {
            Ok(ds) => ds,
            Err(e) => {
                return Err(e);
            },
        };
        let ghost dviews = decision_views(decisions@);
        let ghost mid = self@;
        let mut k: usize = 0;
        while k < decisions.len()
            invariant
                self@.wf(),
                k <= decisions.len(),
                forall|i: int| 0 <= i < decisions.len() ==> (#[trigger] decisions@[i]).wf(),
                dviews == decision_views(decisions@),
                execute_all(moved, market, dviews.take(k as int)) == (self@.portfolio, None::<SimError>),
                self@ == (SimulatorView { portfolio: self@.portfolio, ..mid }),
                mid.market == market,
                moved == (PortfolioView {
                    positions: evolve_positions(old(self)@.portfolio.positions, shocks@),
                    ..old(self)@.portfolio
                }),
                market == record_prices(old(self)@.market, moved.positions),
                dviews == old(self)@.strategy.spec_decisions(moved, now),
                mid.strategy == old(self)@.strategy,
                mid.history == old(self)@.history,
                mid.step_count == (if old(self)@.step_count < usize::MAX {
                    (old(self)@.step_count + 1) as usize
                } else {
                    old(self)@.step_count
                }),
            decreases decisions.len() - k,
        {
            proof {
                assert(dviews.take(k as int + 1).drop_last() =~= dviews.take(k as int));
                assert(dviews[k as int] == decisions@[k as int]@);
            }
            match self.execute_routing(&decisions[k]) {
                Ok(()) => {},
                Err(e) => {
                    proof {
                        assert(execute_all(moved, market, dviews.take(k as int + 1)) == (
                            self@.portfolio,
                            Some(e),
                        ));
                        lemma_stopped_run(moved, market, dviews, k as int + 1);
                    }
                    return Err(e);
                },
            }
            k += 1;
        }
        proof {
            assert(dviews.take(k as int) =~= dviews);
        }
        self.portfolio.update_total_value();
        self.record_snapshot(now);
        Ok(())
    }

    /// One step with freshly drawn shocks (each uniform on `[-0.5, 0.5)` and
    /// scaled by `√dt`) and the current time.
    pub fn step(&mut self) -> (r: Result<(), SimError>)
        requires
            old(self)@.wf(),
        ensures
            final(self)@.wf(),
            exists|shocks: Seq<Decimal>, now: Timestamp|
                {
                    &&& shocks.len() == old(self)@.portfolio.positions.len()
                    &&& drawn_shocks(shocks)
                    &&& (final(self)@, r) == spec_step(old(self)@, shocks, now)
                },
    {
        let shocks = draw_shocks(self.portfolio.positions.len());
        let now = now_utc();
        self.step_with(&shocks, now)
    }

    /// The current total value of the portfolio.
    pub fn portfolio_value(&self) -> (r: Decimal)
        requires
            self@.wf(),
        ensures
            r == self@.portfolio.total_value,
    {
        self.portfolio.total_value
    }

    /// Ends the run: recomputes the total value and measures the run, as
    /// [`results_match`] describes.
    #[verifier::rlimit(50)]
    pub fn finalize(self) -> (r: SimulationResults)
        requires
            self@.wf(),
        ensures
            results_match(r, self@),
            r.initial_value.wf(),
            r.final_value.wf(),
            r.total_return.wf(),
            r.total_return_pct.wf(),
            r.sharpe_ratio.wf(),
            r.max_drawdown_pct.wf(),
            r.volatility_pct.wf(),
            r.value_at_risk.wf(),
            r.conditional_var.wf(),
    {
        let ghost s = self@;
        let mut this = self;
        this.portfolio.update_total_value();
        let initial_value = if this.portfolio_history.len() > 0 {
            proof {
                assert(s.history[0] == this.portfolio_history@[0]);
                assert(s.history[0].total_value.wf());
            }
            this.portfolio_history[0].total_value
        } else {
            Decimal::zero()
        };
        let final_value = this.portfolio.total_value;
        let total_return = difference(final_value, initial_value);
        let total_return_pct = if initial_value.gt(&Decimal::zero()) {
            product(total_return.quotient_or_zero(&initial_value), Decimal::new(100, 0))
        } else {
            Decimal::zero()
        };
        let values = values_of(&this.portfolio_history);
        let series = returns_of(&values);
        let confidence = Decimal::new(95, 2);
        let sharpe_ratio = sharpe_of(&series, Decimal::zero());
        let max_drawdown_pct = max_drawdown_of(&values);
        let volatility_pct = volatility_of(&series);
        let value_at_risk = historical_var(&series, confidence, final_value);
        let conditional_var = historical_cvar(&series, confidence, final_value);
        proof {
            assert(this@.portfolio == s.portfolio.with_total());
            assert(this.portfolio_history@ == s.history);
            assert(values@ == history_values(s.history));
            assert(series@ == spec_returns(history_values(s.history)));
            assert(final_value == s.portfolio.with_total().total_value);
            assert(initial_value == (if s.history.len() > 0 {
                s.history[0].total_value
            } else {
                Decimal::spec_zero()
            }));
        }
        let r = SimulationResults {
            initial_value,
            final_value,
            total_return,
            total_return_pct,
            sharpe_ratio,
            max_drawdown_pct,
            volatility_pct,
            value_at_risk,
            conditional_var,
            portfolio_history: this.portfolio_history,
        };
        proof {
            assert(r.total_return == r.final_value.spec_difference(r.initial_value));
            assert(r.sharpe_ratio == spec_sharpe(series@, Decimal::spec_zero()));
            assert(r.max_drawdown_pct == spec_max_drawdown(values@));
            assert(r.volatility_pct == spec_volatility(series@));
            assert(r.portfolio_history@ == s.history);
            crate::decimal::lemma_units_sign(Decimal::spec_zero());
            assert(r.total_return_pct == (if r.initial_value.units() > 0 {
                r.total_return.spec_quotient_or_zero(r.initial_value).spec_product(
                    Decimal::spec_lit(100, 0),
                )
            } else {
                Decimal::spec_zero()
            }));
            assert(r.value_at_risk == spec_historical_var(series@, Decimal::spec_lit(95, 2), r.final_value));
            assert(r.conditional_var == spec_historical_cvar(series@, Decimal::spec_lit(95, 2), r.final_value));
        }
        r
    }

    /// The portfolio being simulated.
    pub fn portfolio(&self) -> (r: &Portfolio)
        ensures
            r@ == self@.portfolio,
    {
        &self.portfolio
    }

    /// The snapshots recorded so far, one per completed step.
    pub fn history(&self) -> (r: &Vec<PortfolioSnapshot>)
        ensures
            r@ == self@.history,
    {
        &self.portfolio_history
    }

    /// The number of steps begun.
    pub fn step_count(&self) -> (r: usize)
        ensures
            r == self@.step_count,
    {
        self.step_count
    }

    /// A new simulator with `capital` and `strategy`, stepped `steps` times
    /// or until a step fails; the simulator and the outcome of its last step.
    pub fn run(capital: Decimal, strategy: Strategy, steps: usize) -> (r: (Simulator, Result<(), SimError>))
        requires
            capital.wf(),
        ensures
            r.0@.wf(),
            trial(capital, strategy, steps as nat, r.0@, r.1),
    {
        let mut sim = Simulator::new(capital, strategy);
        let ghost s0 = sim@;
        let ghost mut shocks: Seq<Seq<Decimal>> = Seq::empty();
        let ghost mut times: Seq<Timestamp> = Seq::empty();
        let mut k: usize = 0;
        while k < steps
            invariant
                sim@.wf(),
                fresh(s0, capital, strategy),
                k <= steps,
                shocks.len() == k,
                times.len() == k,
                forall|i: int| 0 <= i < k ==> drawn_shocks(#[trigger] shocks[i]),
                run_steps(s0, shocks, times, k as nat) == (sim@, Ok::<(), SimError>(())),
            decreases steps - k,
        {
            let ghost before = sim@;
            let res = sim.step();
            let ghost pick = choose|a: Seq<Decimal>, t: Timestamp|
                {
                    &&& a.len() == before.portfolio.positions.len()
                    &&& drawn_shocks(a)
                    &&& (sim@, res) == spec_step(before, a, t)
                };
            proof {
                let a2 = shocks.push(pick.0);
                let t2 = times.push(pick.1);
                lemma_run_prefix(s0, shocks, times, a2, t2, k as nat);
                assert(run_steps(s0, a2, t2, (k + 1) as nat) == (sim@, res));
                shocks = a2;
                times = t2;
            }
            if res.is_err() {
                proof {
                    let pad = (steps - k - 1) as int;
                    let a3 = shocks + Seq::new(pad as nat, |i: int| Seq::<Decimal>::empty());
                    let t3 = times + Seq::new(pad as nat, |i: int| Timestamp { unix_nanos: 0 });
                    lemma_run_prefix(s0, shocks, times, a3, t3, (k + 1) as nat);
                    lemma_run_stopped(s0, a3, t3, (k + 1) as nat, steps as nat);
                    assert forall|i: int| 0 <= i < steps implies drawn_shocks(#[trigger] a3[i]) by {
                        if i < k + 1 {
                            assert(a3[i] == shocks[i]);
                        } else {
                            assert(a3[i] == Seq::<Decimal>::empty());
                        }
                    }
                    assert(fresh(s0, capital, strategy) && a3.len() == steps && t3.len() == steps
                        && run_steps(s0, a3, t3, steps as nat) == (sim@, res));
                }
                return (sim, res);
            }
            k += 1;
        }
        (sim, Ok(()))
    }
}

} // verus!
