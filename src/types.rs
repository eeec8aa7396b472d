//! The portfolio model: assets, positions, portfolios, snapshots and routing
//! decisions.
use crate::decimal::{difference, product, sum, Decimal};
use vstd::prelude::*;

verus! {

/// An instant, in nanoseconds since the Unix epoch (UTC).
#[derive(Clone, Copy, Debug, PartialEq, Eq, Structural)]
pub struct Timestamp {
    pub unix_nanos: i128,
}

/// Relies on time's `OffsetDateTime::now_utc` and `unix_timestamp_nanos`: the
/// current instant. Nothing is promised of its value.
#[verifier::external_body]
pub(crate) fn now_utc() -> (r: Timestamp) {
    Timestamp { unix_nanos: time::OffsetDateTime::now_utc().unix_timestamp_nanos() }
}

#[derive(Clone, Copy, Debug, PartialEq, Eq, Structural)]
pub enum AssetType {
    Crypto,
    DeFiPool,
    RWABond,
    RWACredit,
    Stablecoin,
    Other,
}

/// The plain contents of an asset.
pub struct AssetView {
    pub symbol: Seq<char>,
    pub name: Seq<char>,
    pub asset_type: AssetType,
    pub current_price: Decimal,
    pub volatility: Decimal,
    pub yield_rate: Decimal,
}

/// A financial asset.
#[derive(Debug)]
pub struct Asset {
    pub symbol: String,
    pub name: String,
    pub asset_type: AssetType,
    pub current_price: Decimal,
    pub volatility: Decimal,
    pub yield_rate: Decimal,
}

impl View for Asset {
    type V = AssetView;

    open spec fn view(&self) -> AssetView {
        AssetView {
            symbol: self.symbol@,
            name: self.name@,
            asset_type: self.asset_type,
            current_price: self.current_price,
            volatility: self.volatility,
            yield_rate: self.yield_rate,
        }
    }
}

impl AssetView {
    pub open spec fn wf(self) -> bool {
        self.current_price.wf() && self.volatility.wf() && self.yield_rate.wf()
    }
}

/// The plain contents of a position.
pub struct PositionView {
    pub asset: AssetView,
    pub quantity: Decimal,
    pub entry_price: Decimal,
    pub current_value: Decimal,
}

impl PositionView {
    pub open spec fn wf(self) -> bool {
        self.asset.wf() && self.quantity.wf() && self.entry_price.wf() && self.current_value.wf()
    }

    pub open spec fn symbol(self) -> Seq<char> {
        self.asset.symbol
    }

    /// The position after a price change: the price and the value derived from
    /// it move together.
    pub open spec fn with_price(self, new_price: Decimal) -> PositionView {
        PositionView {
            asset: AssetView { current_price: new_price, ..self.asset },
            current_value: self.quantity.spec_product(new_price),
            ..self
        }
    }

    pub open spec fn spec_unrealized_pnl(self) -> Decimal {
        self.asset.current_price.spec_difference(self.entry_price).spec_product(self.quantity)
    }

    pub open spec fn spec_unrealized_pnl_pct(self) -> Decimal {
        if self.entry_price.units() > 0 {
            self.asset.current_price.spec_difference(self.entry_price).spec_quotient_or_zero(
                self.entry_price,
            ).spec_product(Decimal::spec_lit(100, 0))
        } else {
            Decimal::spec_zero()
        }
    }
}

/// A quantity of one asset held at a recorded entry price.
#[derive(Debug)]
pub struct Position {
    pub asset: Asset,
    pub quantity: Decimal,
    pub entry_price: Decimal,
    pub current_value: Decimal,
}

impl View for Position {
    type V = PositionView;

    open spec fn view(&self) -> PositionView {
        PositionView {
            asset: self.asset@,
            quantity: self.quantity,
            entry_price: self.entry_price,
            current_value: self.current_value,
        }
    }
}

impl Position {
    /// A position whose value is `quantity × asset.current_price`.
    pub fn new(asset: Asset, quantity: Decimal, entry_price: Decimal) -> (r: Position)
        requires
            asset@.wf(),
            quantity.wf(),
            entry_price.wf(),
        ensures
            r@.wf(),
            r@ == (PositionView {
                asset: asset@,
                quantity,
                entry_price,
                current_value: quantity.spec_product(asset.current_price),
            }),
    {
        let current_value = product(quantity, asset.current_price);
        Position { asset, quantity, entry_price, current_value }
    }

    pub fn update_price(&mut self, new_price: Decimal)
        requires
            old(self)@.wf(),
            new_price.wf(),
        ensures
            final(self)@ == old(self)@.with_price(new_price),
            final(self)@.wf(),
    {
        self.asset.current_price = new_price;
        self.current_value = product(self.quantity, new_price);
    }

    /// `(current price − entry price) × quantity`.
    pub fn unrealized_pnl(&self) -> (r: Decimal)
        requires
            self@.wf(),
        ensures
            r == self@.spec_unrealized_pnl(),
            r.wf(),
    {
        product(difference(self.asset.current_price, self.entry_price), self.quantity)
    }

    /// `(current price − entry price) / entry price × 100`, zero when the entry
    /// price is not positive.
    pub fn unrealized_pnl_pct(&self) -> (r: Decimal)
        requires
            self@.wf(),
        ensures
            r == self@.spec_unrealized_pnl_pct(),
            r.wf(),
    {
        if self.entry_price.gt(&Decimal::zero()) {
            let change = difference(self.asset.current_price, self.entry_price);
            product(change.quotient_or_zero(&self.entry_price), Decimal::new(100, 0))
        } else {
            Decimal::zero()
        }
    }
}

/// No symbol is held twice.
pub open spec fn symbols_unique(ps: Seq<PositionView>) -> bool {
    forall|i: int, j: int|
        0 <= i < ps.len() && 0 <= j < ps.len() && i != j ==> ps[i].symbol() != ps[j].symbol()
}

/// Some position holds `sym`.
pub open spec fn holds(ps: Seq<PositionView>, sym: Seq<char>) -> bool {
    exists|i: int| 0 <= i < ps.len() && ps[i].symbol() == sym
}

/// Where `sym` is held (meaningful when it is held).
pub open spec fn index_of(ps: Seq<PositionView>, sym: Seq<char>) -> int {
    choose|i: int| 0 <= i < ps.len() && ps[i].symbol() == sym
}

/// The sum of the positions' values, added up in order from zero.
pub open spec fn sum_values(ps: Seq<PositionView>) -> Decimal
    decreases ps.len(),
{
    if ps.len() == 0 {
        Decimal::spec_zero()
    } else {
        sum_values(ps.drop_last()).spec_sum(ps.last().current_value)
    }
}

/// The positions after `p` is put in: it replaces the position of the same
/// symbol, or is appended.
pub open spec fn insert_position(ps: Seq<PositionView>, p: PositionView) -> Seq<PositionView> {
    if holds(ps, p.symbol()) {
        ps.update(index_of(ps, p.symbol()), p)
    } else {
        ps.push(p)
    }
}

/// The plain contents of a portfolio.
pub struct PortfolioView {
    pub positions: Seq<PositionView>,
    pub cash: Decimal,
    pub total_value: Decimal,
    pub timestamp: Timestamp,
}

impl PortfolioView {
    pub open spec fn wf(self) -> bool {
        &&& self.cash.wf()
        &&& self.total_value.wf()
        &&& forall|i: int| 0 <= i < self.positions.len() ==> (#[trigger] self.positions[i]).wf()
        &&& symbols_unique(self.positions)
    }

    /// `cash + Σ position values`.
    pub open spec fn spec_total(self) -> Decimal {
        self.cash.spec_sum(sum_values(self.positions))
    }

    /// The portfolio with its total value recomputed.
    pub open spec fn with_total(self) -> PortfolioView {
        PortfolioView { total_value: self.spec_total(), ..self }
    }
}

/// What can go wrong in the library.
#[derive(Clone, Copy, Debug, PartialEq, Eq, Structural)]
pub enum SimError {
    /// A routing decision asks for more than the cash available.
    InsufficientCash,
    /// No built-in strategy has the given name.
    UnknownStrategy,
    /// A quantity could not be derived from an amount and a price (a zero
    /// price, or a quotient out of range).
    InvalidPrice,
    /// A market-data provider has no data for a symbol.
    LookupNotFound,
}

/// The plain contents of a routing decision.
pub struct DecisionView {
    pub timestamp: Timestamp,
    pub source_asset: Seq<char>,
    pub target_asset: Seq<char>,
    pub amount: Decimal,
    pub expected_yield: Decimal,
    pub risk_score: Decimal,
    pub execution_cost: Decimal,
}

/// An instruction to move `amount` of cash into `target_asset`.
#[derive(Debug)]
pub struct RoutingDecision {
    pub timestamp: Timestamp,
    pub source_asset: String,
    pub target_asset: String,
    pub amount: Decimal,
    pub expected_yield: Decimal,
    /// Advisory only, in `[0, 1]`.
    pub risk_score: Decimal,
    pub execution_cost: Decimal,
}

impl View for RoutingDecision {
    type V = DecisionView;

    open spec fn view(&self) -> DecisionView {
        DecisionView {
            timestamp: self.timestamp,
            source_asset: self.source_asset@,
            target_asset: self.target_asset@,
            amount: self.amount,
            expected_yield: self.expected_yield,
            risk_score: self.risk_score,
            execution_cost: self.execution_cost,
        }
    }
}

impl RoutingDecision {
    pub open spec fn wf(self) -> bool {
        self.amount.wf() && self.expected_yield.wf() && self.risk_score.wf()
            && self.execution_cost.wf()
    }
}

/// The views of a list of decisions.
pub open spec fn decision_views(ds: Seq<RoutingDecision>) -> Seq<DecisionView> {
    ds.map_values(|d: RoutingDecision| d@)
}

/// A point-in-time record of a portfolio.
#[derive(Clone, Copy, Debug, PartialEq, Eq, Structural)]
pub struct PortfolioSnapshot {
    pub timestamp: Timestamp,
    pub total_value: Decimal,
    pub cash: Decimal,
    pub positions_value: Decimal,
    pub positions_count: usize,
}

/// The outcome of one simulation run.
#[derive(Debug)]
pub struct SimulationResults {
    pub initial_value: Decimal,
    pub final_value: Decimal,
    pub total_return: Decimal,
    pub total_return_pct: Decimal,
    pub sharpe_ratio: Decimal,
    pub max_drawdown_pct: Decimal,
    pub volatility_pct: Decimal,
    pub value_at_risk: Decimal,
    pub conditional_var: Decimal,
    pub portfolio_history: Vec<PortfolioSnapshot>,
}

/// A price for one symbol.
#[derive(Debug)]
pub struct PriceQuote {
    pub symbol: String,
    pub price: Decimal,
}

impl View for PriceQuote {
    type V = (Seq<char>, Decimal);

    open spec fn view(&self) -> (Seq<char>, Decimal) {
        (self.symbol@, self.price)
    }
}

/// The snapshot of a portfolio taken at `now`.
pub open spec fn snapshot_of(p: PortfolioView, now: Timestamp) -> PortfolioSnapshot {
    PortfolioSnapshot {
        timestamp: now,
        total_value: p.total_value,
        cash: p.cash,
        positions_value: sum_values(p.positions),
        positions_count: p.positions.len() as usize,
    }
}

/// The positions after the quotes are applied in order: each quote for a held
/// symbol moves that position's price and value.
pub open spec fn apply_quotes(ps: Seq<PositionView>, qs: Seq<PriceQuote>) -> Seq<PositionView>
    decreases qs.len(),
{
    if qs.len() == 0 {
        ps
    } else {
        let prev = apply_quotes(ps, qs.drop_last());
        let q = qs.last();
        if holds(prev, q.symbol@) {
            let i = index_of(prev, q.symbol@);
            prev.update(i, prev[i].with_price(q.price))
        } else {
            prev
        }
    }
}

/// Cash plus a set of positions keyed by symbol, with a derived total value.
#[derive(Debug)]
pub struct Portfolio {
    pub positions: Vec<Position>,
    pub cash: Decimal,
    pub total_value: Decimal,
    pub timestamp: Timestamp,
}

impl View for Portfolio {
    type V = PortfolioView;

    open spec fn view(&self) -> PortfolioView {
        PortfolioView {
            positions: self.positions@.map_values(|p: Position| p@),
            cash: self.cash,
            total_value: self.total_value,
            timestamp: self.timestamp,
        }
    }
}

impl Portfolio {
    pub open spec fn wf(self) -> bool {
        self@.wf()
    }

    /// A portfolio of cash only.
    pub fn new(initial_cash: Decimal) -> (r: Portfolio)
        requires
            initial_cash.wf(),
        ensures
            r@.wf(),
            r@.positions.len() == 0,
            r.cash == initial_cash,
            r.total_value == initial_cash,
    {
        let r = Portfolio {
            positions: Vec::new(),
            cash: initial_cash,
            total_value: initial_cash,
            timestamp: now_utc(),
        };
        proof {
            assert(r@.positions =~= Seq::<PositionView>::empty());
        }
        r
    }

    /// Where `sym` is held, if it is.
    pub fn position_index(&self, sym: &String) -> (r: Option<usize>)
        requires
            self@.wf(),
        ensures
            r matches Some(i) ==> i < self.positions.len() && self@.positions[i as int].symbol()
                == sym@ && index_of(self@.positions, sym@) == i,
            r is None <==> !holds(self@.positions, sym@),
    {
        let mut i: usize = 0;
        while i < self.positions.len()
            invariant
                self@.wf(),
                i <= self.positions.len(),
                forall|j: int| 0 <= j < i ==> self@.positions[j].symbol() != sym@,
            decreases self.positions.len() - i,
        {
            if self.positions[i].asset.symbol == *sym {
                proof {
                    let k = index_of(self@.positions, sym@);
                    assert(self@.positions[i as int].symbol() == sym@);
                    assert(0 <= k < self.positions.len() && self@.positions[k].symbol() == sym@);
                    assert(k == i);
                }
                return Some(i);
            }
            i += 1;
        }
        None
    }

    /// The sum of the position values.
    pub fn positions_value(&self) -> (r: Decimal)
        requires
            self@.wf(),
        ensures
            r == sum_values(self@.positions),
            r.wf(),
    {
        let mut total = Decimal::zero();
        let mut i: usize = 0;
        while i < self.positions.len()
            invariant
                self@.wf(),
                i <= self.positions.len(),
                total == sum_values(self@.positions.take(i as int)),
                total.wf(),
            decreases self.positions.len() - i,
        {
            proof {
                assert(self@.positions.take(i as int + 1).drop_last() =~= self@.positions.take(
                    i as int,
                ));
                assert(self@.positions[i as int].wf());
            }
            total = sum(total, self.positions[i].current_value);
            i += 1;
        }
        proof {
            assert(self@.positions.take(i as int) =~= self@.positions);
        }
        total
    }

    /// Recomputes `total_value` as cash plus the sum of the position values.
    pub fn update_total_value(&mut self)
        requires
            old(self)@.wf(),
        ensures
            final(self)@ == old(self)@.with_total(),
            final(self)@.wf(),
            final(self).positions@ == old(self).positions@,
    {
        let positions_value = self.positions_value();
        self.total_value = sum(self.cash, positions_value);
    }

    /// Puts `position` in (replacing any position of the same symbol), pays its
    /// value out of cash, and recomputes the total value.
    pub fn add_position(&mut self, position: Position)
        requires
            old(self)@.wf(),
            position@.wf(),
        ensures
            final(self)@ == (PortfolioView {
                positions: insert_position(old(self)@.positions, position@),
                cash: old(self).cash.spec_difference(position.current_value),
                ..old(self)@
            }).with_total(),
            final(self)@.wf(),
    {
        self.cash = difference(self.cash, position.current_value);
        let ghost ps = self@.positions;
        let ghost pv = position@;
        match self.position_index(&position.asset.symbol) {
            Some(i) => {
                self.positions.set(i, position);
                proof {
                    assert(self@.positions =~= ps.update(i as int, pv));
                    assert forall|j: int| 0 <= j < ps.len() && j != i implies ps[j].symbol()
                        != pv.symbol() by {
                        assert(ps[i as int].symbol() == pv.symbol());
                    }
                }
            },
            None => {
                self.positions.push(position);
                proof {
                    assert(self@.positions =~= ps.push(pv));
                }
            },
        }
        self.update_total_value();
    }

    /// Takes out the position of `symbol`, if any, paying its value back into
    /// cash and recomputing the total value.
    pub fn remove_position(&mut self, symbol: &str) -> (r: Option<Position>)
        requires
            old(self)@.wf(),
        ensures
            final(self)@.wf(),
            r is Some <==> holds(old(self)@.positions, symbol@),
            r matches Some(p) ==> {
                let i = index_of(old(self)@.positions, symbol@);
                &&& p@ == old(self)@.positions[i]
                &&& final(self)@ == (PortfolioView {
                    positions: old(self)@.positions.remove(i),
                    cash: old(self).cash.spec_sum(p.current_value),
                    ..old(self)@
                }).with_total()
            },
            r is None ==> final(self)@ == old(self)@,
    {
        let key = symbol.to_owned();
        match self.position_index(&key) {
            Some(i) => {
                let ghost ps = self@.positions;
                let position = self.positions.remove(i);
                self.cash = sum(self.cash, position.current_value);
                proof {
                    assert(self@.positions =~= ps.remove(i as int));
                    assert forall|a: int, b: int|
                        0 <= a < self.positions.len() && 0 <= b < self.positions.len() && a
                            != b implies self@.positions[a].symbol()
                        != self@.positions[b].symbol() by {
                        let a2 = if a < i { a } else { a + 1 };
                        let b2 = if b < i { b } else { b + 1 };
                        assert(self@.positions[a] == ps[a2]);
                        assert(self@.positions[b] == ps[b2]);
                    }
                    assert forall|j: int| 0 <= j < self.positions.len() implies (
                    #[trigger] self@.positions[j]).wf() by {
                        let j2 = if j < i { j } else { j + 1 };
                        assert(self@.positions[j] == ps[j2]);
                    }
                }
                self.update_total_value();
                Some(position)
            },
            None => None,
        }
    }

    /// Moves the price (and with it the value) of each held position that a
    /// quote names, in order, then recomputes the total value.
    pub fn update_prices(&mut self, price_updates: &Vec<PriceQuote>)
        requires
            old(self)@.wf(),
            forall|k: int| 0 <= k < price_updates.len() ==> (#[trigger] price_updates[k]).price.wf(),
        ensures
            final(self)@ == (PortfolioView {
                positions: apply_quotes(old(self)@.positions, price_updates@),
                ..old(self)@
            }).with_total(),
            final(self)@.wf(),
    {
        let mut k: usize = 0;
        while k < price_updates.len()
            invariant
                self@.wf(),
                k <= price_updates.len(),
                forall|k: int| 0 <= k < price_updates.len() ==> (#[trigger] price_updates[k]).price.wf(),
                self@.positions == apply_quotes(old(self)@.positions, price_updates@.take(k as int)),
                self.cash == old(self).cash,
                self.total_value == old(self).total_value,
                self.timestamp == old(self).timestamp,
            decreases price_updates.len() - k,
        {
            let ghost prev = self@.positions;
            proof {
                assert(price_updates@.take(k as int + 1).drop_last() =~= price_updates@.take(
                    k as int,
                ));
            }
            match self.position_index(&price_updates[k].symbol) {
                Some(i) => {
                    let mut position = self.positions.remove(i);
                    proof {
                        assert(position@ == prev[i as int]);
                    }
                    position.update_price(price_updates[k].price);
                    self.positions.insert(i, position);
                    proof {
                        assert(self@.positions =~= prev.update(
                            i as int,
                            prev[i as int].with_price(price_updates[k as int].price),
                        ));
                        assert forall|a: int, b: int|
                            0 <= a < self.positions.len() && 0 <= b < self.positions.len() && a
                                != b implies self@.positions[a].symbol()
                            != self@.positions[b].symbol() by {
                            assert(self@.positions[a].symbol() == prev[a].symbol());
                            assert(self@.positions[b].symbol() == prev[b].symbol());
                        }
                        assert forall|j: int| 0 <= j < self.positions.len() implies (
                        #[trigger] self@.positions[j]).wf() by {
                            assert(prev[j].wf());
                        }
                    }
                },
                None => {},
            }
            k += 1;
        }
        proof {
            assert(price_updates@.take(k as int) =~= price_updates@);
        }
        self.update_total_value();
    }
}

/// One day of market data for a symbol.
#[derive(Debug)]
pub struct MarketData {
    pub timestamp: Timestamp,
    pub symbol: String,
    pub price: Decimal,
    pub volume: Decimal,
    pub high: Decimal,
    pub low: Decimal,
    pub open: Decimal,
    pub close: Decimal,
}

/// A completed or open trade.
#[derive(Debug)]
pub struct Trade {
    pub entry_time: Timestamp,
    pub exit_time: Option<Timestamp>,
    pub asset: String,
    pub quantity: Decimal,
    pub entry_price: Decimal,
    pub exit_price: Option<Decimal>,
    pub pnl: Option<Decimal>,
    pub pnl_pct: Option<Decimal>,
}

/// The outcome of a backtest over a time span.
#[derive(Debug)]
pub struct BacktestResults {
    pub start_date: Timestamp,
    pub end_date: Timestamp,
    pub initial_value: Decimal,
    pub final_value: Decimal,
    pub total_return_pct: Decimal,
    pub annualized_return_pct: Decimal,
    pub volatility_pct: Decimal,
    pub sharpe_ratio: Decimal,
    pub max_drawdown_pct: Decimal,
    pub win_rate: Decimal,
    pub profit_factor: Decimal,
    pub trades: Vec<Trade>,
}

/// Risk limits for a strategy, in percent where named so.
#[derive(Clone, Copy, Debug, PartialEq, Eq, Structural)]
pub struct RiskParameters {
    pub max_position_size_pct: Decimal,
    pub max_leverage: Decimal,
    pub stop_loss_pct: Decimal,
    pub take_profit_pct: Decimal,
    pub max_drawdown_pct: Decimal,
    pub correlation_limit: Decimal,
}

impl Default for RiskParameters {
    /// 20% largest position, no leverage, 5% stop loss, 10% take profit, 15%
    /// largest drawdown, 0.7 correlation limit.
    fn default() -> (r: RiskParameters)
        ensures
            r == (RiskParameters {
                max_position_size_pct: Decimal::spec_lit(20, 0),
                max_leverage: Decimal::spec_lit(1, 0),
                stop_loss_pct: Decimal::spec_lit(5, 0),
                take_profit_pct: Decimal::spec_lit(10, 0),
                max_drawdown_pct: Decimal::spec_lit(15, 0),
                correlation_limit: Decimal::spec_lit(7, 1),
            }),
    {
        RiskParameters {
            max_position_size_pct: Decimal::new(20, 0),
            max_leverage: Decimal::new(1, 0),
            stop_loss_pct: Decimal::new(5, 0),
            take_profit_pct: Decimal::new(10, 0),
            max_drawdown_pct: Decimal::new(15, 0),
            correlation_limit: Decimal::new(7, 1),
        }
    }
}

/// The configuration of a strategy.
#[derive(Debug)]
pub struct StrategyConfig {
    pub name: String,
    pub risk_parameters: RiskParameters,
    pub rebalance_frequency_days: u32,
    pub min_yield_threshold: Decimal,
    pub max_slippage_pct: Decimal,
    pub preferred_asset_types: Vec<AssetType>,
}

} // verus!
