//! The built-in allocation strategies.
use crate::decimal::{product, Decimal};
use crate::types::{
    decision_views, holds, DecisionView, Portfolio, PortfolioView, PriceQuote, RoutingDecision, SimError,
    Timestamp,
};
use vstd::prelude::*;

verus! {

/// The decimal `m / 10^s`.
pub open spec fn lit(m: int, s: int) -> Decimal {
    Decimal::spec_lit(m, s)
}

/// One decision routing `amount` of cash ("USD") into `target`.
pub open spec fn decision(
    now: Timestamp,
    target: Seq<char>,
    amount: Decimal,
    expected_yield: Decimal,
    risk_score: Decimal,
    execution_cost: Decimal,
) -> DecisionView {
    DecisionView {
        timestamp: now,
        source_asset: "USD"@,
        target_asset: target,
        amount,
        expected_yield,
        risk_score,
        execution_cost,
    }
}

/// A tranche of `amount` into `target`, unless `target` is already held or
/// the amount does not exceed 500.
pub open spec fn tranche(
    p: PortfolioView,
    now: Timestamp,
    target: Seq<char>,
    amount: Decimal,
    expected_yield: Decimal,
    risk_score: Decimal,
    fee_rate: Decimal,
) -> Seq<DecisionView> {
    if !holds(p.positions, target) && amount.units() > lit(500, 0).units() {
        seq![decision(now, target, amount, expected_yield, risk_score, amount.spec_product(fee_rate))]
    } else {
        seq![]
    }
}

/// Conservative: with cash at least 10% of the total value, 30% of cash into
/// "USDC" when that exceeds 1000.
pub open spec fn conservative_decisions(p: PortfolioView, now: Timestamp) -> Seq<DecisionView> {
    let amount = p.cash.spec_product(lit(3, 1));
    if p.cash.units() < p.total_value.spec_product(lit(1, 1)).units() {
        seq![]
    } else if amount.units() > lit(1000, 0).units() {
        seq![decision(now, "USDC"@, amount, lit(5, 2), lit(1, 1), amount.spec_product(lit(1, 3)))]
    } else {
        seq![]
    }
}

/// Balanced: with cash of at least 1000, a 20%-of-cash tranche into each of
/// "USDC", "ETH", "BTC", "SOL" and "MATIC".
pub open spec fn balanced_decisions(p: PortfolioView, now: Timestamp) -> Seq<DecisionView> {
    let amount = p.cash.spec_product(lit(2, 1));
    if p.cash.units() < lit(1000, 0).units() {
        seq![]
    } else {
        tranche(p, now, "USDC"@, amount, lit(8, 2), lit(5, 1), lit(2, 3)) + tranche(
            p,
            now,
            "ETH"@,
            amount,
            lit(8, 2),
            lit(5, 1),
            lit(2, 3),
        ) + tranche(p, now, "BTC"@, amount, lit(8, 2), lit(5, 1), lit(2, 3)) + tranche(
            p,
            now,
            "SOL"@,
            amount,
            lit(8, 2),
            lit(5, 1),
            lit(2, 3),
        ) + tranche(p, now, "MATIC"@, amount, lit(8, 2), lit(5, 1), lit(2, 3))
    }
}

/// Aggressive: with cash of at least 1000, 60% of cash into "HIGH_YIELD_POOL".
pub open spec fn aggressive_decisions(p: PortfolioView, now: Timestamp) -> Seq<DecisionView> {
    let amount = p.cash.spec_product(lit(6, 1));
    if p.cash.units() < lit(1000, 0).units() {
        seq![]
    } else {
        seq![
            decision(now, "HIGH_YIELD_POOL"@, amount, lit(20, 2), lit(8, 1), amount.spec_product(lit(5, 3))),
        ]
    }
}

/// Yield maximizer: with cash above 1000, 90% of cash into "MAX_YIELD"; the fee
/// is 0.3% of the whole cash.
pub open spec fn yield_maximizer_decisions(p: PortfolioView, now: Timestamp) -> Seq<DecisionView> {
    if p.cash.units() > lit(1000, 0).units() {
        seq![
            decision(
                now,
                "MAX_YIELD"@,
                p.cash.spec_product(lit(9, 1)),
                lit(25, 2),
                lit(7, 1),
                p.cash.spec_product(lit(3, 3)),
            ),
        ]
    } else {
        seq![]
    }
}

/// Risk parity: with cash of at least 1000, a quarter of cash into each of
/// "USDC", "ETH", "BTC" and "SOL".
pub open spec fn risk_parity_decisions(p: PortfolioView, now: Timestamp) -> Seq<DecisionView> {
    let amount = p.cash.spec_quotient_or_zero(lit(4, 0));
    if p.cash.units() < lit(1000, 0).units() {
        seq![]
    } else {
        tranche(p, now, "USDC"@, amount, lit(10, 2), lit(4, 1), lit(2, 3)) + tranche(
            p,
            now,
            "ETH"@,
            amount,
            lit(10, 2),
            lit(4, 1),
            lit(2, 3),
        ) + tranche(p, now, "BTC"@, amount, lit(10, 2), lit(4, 1), lit(2, 3)) + tranche(
            p,
            now,
            "SOL"@,
            amount,
            lit(10, 2),
            lit(4, 1),
            lit(2, 3),
        )
    }
}

/// A source of routing decisions for a portfolio.
pub trait RoutingStrategy {
    /// The decisions made for `portfolio` at `now`.
    spec fn spec_decisions(&self, portfolio: PortfolioView, now: Timestamp) -> Seq<DecisionView>;

    spec fn spec_name(&self) -> Seq<char>;

    fn generate_routing_decisions(
        &self,
        portfolio: &Portfolio,
        market_state: &Vec<PriceQuote>,
        now: Timestamp,
    ) -> (r: Result<Vec<RoutingDecision>, SimError>)
        requires
            portfolio@.wf(),
        ensures
            r matches Ok(ds) && decision_views(ds@) == self.spec_decisions(portfolio@, now)
                && forall|i: int| 0 <= i < ds.len() ==> (#[trigger] ds@[i]).wf(),
    ;

    fn name(&self) -> (r: &'static str)
        ensures
            r@ == self.spec_name(),
    ;
}

/// Builds one decision routing `amount` of cash into `target`.
fn make_decision(
    now: Timestamp,
    target: &str,
    amount: Decimal,
    expected_yield: Decimal,
    risk_score: Decimal,
    execution_cost: Decimal,
) -> (r: RoutingDecision)
    requires
        amount.wf(),
        expected_yield.wf(),
        risk_score.wf(),
        execution_cost.wf(),
    ensures
        r@ == decision(now, target@, amount, expected_yield, risk_score, execution_cost),
        r.wf(),
{
    RoutingDecision {
        timestamp: now,
        source_asset: "USD".to_owned(),
        target_asset: target.to_owned(),
        amount,
        expected_yield,
        risk_score,
        execution_cost,
    }
}

/// Appends the tranche of `amount` into `target` that [`tranche`] describes.
fn push_tranche(
    decisions: &mut Vec<RoutingDecision>,
    p: &Portfolio,
    now: Timestamp,
    target: &str,
    amount: Decimal,
    expected_yield: Decimal,
    risk_score: Decimal,
    fee_rate: Decimal,
)
    requires
        p@.wf(),
        amount.wf(),
        expected_yield.wf(),
        risk_score.wf(),
        fee_rate.wf(),
        forall|i: int| 0 <= i < old(decisions).len() ==> (#[trigger] old(decisions)@[i]).wf(),
    ensures
        decision_views(final(decisions)@) == decision_views(old(decisions)@) + tranche(
            p@,
            now,
            target@,
            amount,
            expected_yield,
            risk_score,
            fee_rate,
        ),
        forall|i: int| 0 <= i < final(decisions).len() ==> (#[trigger] final(decisions)@[i]).wf(),
{
    let key = target.to_owned();
    let ghost before = decisions@;
    if p.position_index(&key).is_none() && amount.gt(&Decimal::new(500, 0)) {
        let fee = product(amount, fee_rate);
        decisions.push(make_decision(now, target, amount, expected_yield, risk_score, fee));
        proof {
            assert(decision_views(decisions@) =~= decision_views(before) + tranche(
                p@,
                now,
                target@,
                amount,
                expected_yield,
                risk_score,
                fee_rate,
            ));
        }
    } else {
        proof {
            assert(decision_views(decisions@) =~= decision_views(before) + tranche(
                p@,
                now,
                target@,
                amount,
                expected_yield,
                risk_score,
                fee_rate,
            ));
        }
    }
}

/// Low risk: stable assets only.
#[derive(Clone, Copy, Debug, PartialEq, Eq, Structural)]
pub struct ConservativeStrategy {
    max_position_size: Decimal,
    min_yield: Decimal,
}

/// Diversified allocation.
#[derive(Clone, Copy, Debug, PartialEq, Eq, Structural)]
pub struct BalancedStrategy {
    max_position_size: Decimal,
    target_positions: usize,
}

/// High risk, high reward.
#[derive(Clone, Copy, Debug, PartialEq, Eq, Structural)]
pub struct AggressiveStrategy {
    max_position_size: Decimal,
    min_yield: Decimal,
}

/// Always routes to the highest yield.
#[derive(Clone, Copy, Debug, PartialEq, Eq, Structural)]
pub struct YieldMaximizerStrategy {
    rebalance_threshold: Decimal,
}

/// Equal risk contribution from each position.
#[derive(Clone, Copy, Debug, PartialEq, Eq, Structural)]
pub struct RiskParityStrategy {
    target_volatility: Decimal,
}

impl ConservativeStrategy {
    pub closed spec fn spec_new() -> Self {
        ConservativeStrategy { max_position_size: lit(15, 2), min_yield: lit(3, 2) }
    }

    /// 15% largest position, 3% least yield.
    pub fn new() -> (r: Self)
        ensures
            r == Self::spec_new(),
    {
        ConservativeStrategy { max_position_size: Decimal::new(15, 2), min_yield: Decimal::new(3, 2) }
    }
}

impl BalancedStrategy {
    pub closed spec fn spec_new() -> Self {
        BalancedStrategy { max_position_size: lit(25, 2), target_positions: 5 }
    }

    /// 25% largest position, five positions aimed at.
    pub fn new() -> (r: Self)
        ensures
            r == Self::spec_new(),
    {
        BalancedStrategy { max_position_size: Decimal::new(25, 2), target_positions: 5 }
    }
}

impl AggressiveStrategy {
    pub closed spec fn spec_new() -> Self {
        AggressiveStrategy { max_position_size: lit(4, 1), min_yield: lit(15, 2) }
    }

    /// 40% largest position, 15% least yield.
    pub fn new() -> (r: Self)
        ensures
            r == Self::spec_new(),
    {
        AggressiveStrategy { max_position_size: Decimal::new(4, 1), min_yield: Decimal::new(15, 2) }
    }
}

impl YieldMaximizerStrategy {
    pub closed spec fn spec_new() -> Self {
        YieldMaximizerStrategy { rebalance_threshold: lit(2, 2) }
    }

    /// A 2% yield difference triggers a rebalance.
    pub fn new() -> (r: Self)
        ensures
            r == Self::spec_new(),
    {
        YieldMaximizerStrategy { rebalance_threshold: Decimal::new(2, 2) }
    }
}

impl RiskParityStrategy {
    pub closed spec fn spec_new() -> Self {
        RiskParityStrategy { target_volatility: lit(10, 2) }
    }

    /// 10% target volatility.
    pub fn new() -> (r: Self)
        ensures
            r == Self::spec_new(),
    {
        RiskParityStrategy { target_volatility: Decimal::new(10, 2) }
    }
}

impl RoutingStrategy for ConservativeStrategy {
    open spec fn spec_decisions(&self, portfolio: PortfolioView, now: Timestamp) -> Seq<DecisionView> {
        conservative_decisions(portfolio, now)
    }

    open spec fn spec_name(&self) -> Seq<char> {
        "conservative"@
    }

    fn generate_routing_decisions(
        &self,
        portfolio: &Portfolio,
        market_state: &Vec<PriceQuote>,
        now: Timestamp,
    ) -> (r: Result<Vec<RoutingDecision>, SimError>) {
        let mut decisions: Vec<RoutingDecision> = Vec::new();
        if portfolio.cash.lt(&product(portfolio.total_value, Decimal::new(1, 1))) {
            proof {
                assert(decision_views(decisions@) =~= seq![]);
            }
            return Ok(decisions);
        }
        let amount = product(portfolio.cash, Decimal::new(3, 1));
        if amount.gt(&Decimal::new(1000, 0)) {
            let fee = product(amount, Decimal::new(1, 3));
            decisions.push(
                make_decision(now, "USDC", amount, Decimal::new(5, 2), Decimal::new(1, 1), fee),
            );
        }
        proof {
            assert(decision_views(decisions@) =~= conservative_decisions(portfolio@, now));
        }
        Ok(decisions)
    }

    fn name(&self) -> (r: &'static str) {
        "conservative"
    }
}

impl RoutingStrategy for BalancedStrategy {
    open spec fn spec_decisions(&self, portfolio: PortfolioView, now: Timestamp) -> Seq<DecisionView> {
        balanced_decisions(portfolio, now)
    }

    open spec fn spec_name(&self) -> Seq<char> {
        "balanced"@
    }

    fn generate_routing_decisions(
        &self,
        portfolio: &Portfolio,
        market_state: &Vec<PriceQuote>,
        now: Timestamp,
    ) -> (r: Result<Vec<RoutingDecision>, SimError>) {
        let mut decisions: Vec<RoutingDecision> = Vec::new();
        if portfolio.cash.lt(&Decimal::new(1000, 0)) {
            proof {
                assert(decision_views(decisions@) =~= seq![]);
            }
            return Ok(decisions);
        }
        let amount = product(portfolio.cash, Decimal::new(2, 1));
        let y = Decimal::new(8, 2);
        let risk = Decimal::new(5, 1);
        let fee = Decimal::new(2, 3);
        proof {
            assert(decision_views(decisions@) =~= seq![]);
        }
        push_tranche(&mut decisions, portfolio, now, "USDC", amount, y, risk, fee);
        push_tranche(&mut decisions, portfolio, now, "ETH", amount, y, risk, fee);
        push_tranche(&mut decisions, portfolio, now, "BTC", amount, y, risk, fee);
        push_tranche(&mut decisions, portfolio, now, "SOL", amount, y, risk, fee);
        push_tranche(&mut decisions, portfolio, now, "MATIC", amount, y, risk, fee);
        proof {
            assert(decision_views(decisions@) =~= balanced_decisions(portfolio@, now));
        }
        Ok(decisions)
    }

    fn name(&self) -> (r: &'static str) {
        "balanced"
    }
}

impl RoutingStrategy for AggressiveStrategy {
    open spec fn spec_decisions(&self, portfolio: PortfolioView, now: Timestamp) -> Seq<DecisionView> {
        aggressive_decisions(portfolio, now)
    }

    open spec fn spec_name(&self) -> Seq<char> {
        "aggressive"@
    }

    fn generate_routing_decisions(
        &self,
        portfolio: &Portfolio,
        market_state: &Vec<PriceQuote>,
        now: Timestamp,
    ) -> (r: Result<Vec<RoutingDecision>, SimError>) {
        let mut decisions: Vec<RoutingDecision> = Vec::new();
        if portfolio.cash.lt(&Decimal::new(1000, 0)) {
            proof {
                assert(decision_views(decisions@) =~= seq![]);
            }
            return Ok(decisions);
        }
        let amount = product(portfolio.cash, Decimal::new(6, 1));
        let fee = product(amount, Decimal::new(5, 3));
        decisions.push(
            make_decision(now, "HIGH_YIELD_POOL", amount, Decimal::new(20, 2), Decimal::new(8, 1), fee),
        );
        proof {
            assert(decision_views(decisions@) =~= aggressive_decisions(portfolio@, now));
        }
        Ok(decisions)
    }

    fn name(&self) -> (r: &'static str) {
        "aggressive"
    }
}

impl RoutingStrategy for YieldMaximizerStrategy {
    open spec fn spec_decisions(&self, portfolio: PortfolioView, now: Timestamp) -> Seq<DecisionView> {
        yield_maximizer_decisions(portfolio, now)
    }

    open spec fn spec_name(&self) -> Seq<char> {
        "yield_maximizer"@
    }

    fn generate_routing_decisions(
        &self,
        portfolio: &Portfolio,
        market_state: &Vec<PriceQuote>,
        now: Timestamp,
    ) -> (r: Result<Vec<RoutingDecision>, SimError>) {
        let mut decisions: Vec<RoutingDecision> = Vec::new();
        let cash = portfolio.cash;
        if cash.gt(&Decimal::new(1000, 0)) {
            let amount = product(cash, Decimal::new(9, 1));
            let fee = product(cash, Decimal::new(3, 3));
            decisions.push(
                make_decision(now, "MAX_YIELD", amount, Decimal::new(25, 2), Decimal::new(7, 1), fee),
            );
        }
        proof {
            assert(decision_views(decisions@) =~= yield_maximizer_decisions(portfolio@, now));
        }
        Ok(decisions)
    }

    fn name(&self) -> (r: &'static str) {
        "yield_maximizer"
    }
}

impl RoutingStrategy for RiskParityStrategy {
    open spec fn spec_decisions(&self, portfolio: PortfolioView, now: Timestamp) -> Seq<DecisionView> {
        risk_parity_decisions(portfolio, now)
    }

    open spec fn spec_name(&self) -> Seq<char> {
        "risk_parity"@
    }

    fn generate_routing_decisions(
        &self,
        portfolio: &Portfolio,
        market_state: &Vec<PriceQuote>,
        now: Timestamp,
    ) -> (r: Result<Vec<RoutingDecision>, SimError>) {
        let mut decisions: Vec<RoutingDecision> = Vec::new();
        if portfolio.cash.lt(&Decimal::new(1000, 0)) {
            proof {
                assert(decision_views(decisions@) =~= seq![]);
            }
            return Ok(decisions);
        }
        let amount = portfolio.cash.quotient_or_zero(&Decimal::new(4, 0));
        let y = Decimal::new(10, 2);
        let risk = Decimal::new(4, 1);
        let fee = Decimal::new(2, 3);
        proof {
            assert(decision_views(decisions@) =~= seq![]);
        }
        push_tranche(&mut decisions, portfolio, now, "USDC", amount, y, risk, fee);
        push_tranche(&mut decisions, portfolio, now, "ETH", amount, y, risk, fee);
        push_tranche(&mut decisions, portfolio, now, "BTC", amount, y, risk, fee);
        push_tranche(&mut decisions, portfolio, now, "SOL", amount, y, risk, fee);
        proof {
            assert(decision_views(decisions@) =~= risk_parity_decisions(portfolio@, now));
        }
        Ok(decisions)
    }

    fn name(&self) -> (r: &'static str) {
        "risk_parity"
    }
}

/// The built-in strategies.
#[derive(Clone, Copy, Debug, PartialEq, Eq, Structural)]
pub enum Strategy {
    Conservative(ConservativeStrategy),
    Balanced(BalancedStrategy),
    Aggressive(AggressiveStrategy),
    YieldMaximizer(YieldMaximizerStrategy),
    RiskParity(RiskParityStrategy),
}

/// What `str::to_lowercase` returns for a string.
pub uninterp spec fn lower_of(s: Seq<char>) -> Seq<char>;

/// Only lowercase ASCII letters and underscores.
pub open spec fn is_lower_name(s: Seq<char>) -> bool {
    forall|i: int| 0 <= i < s.len() ==> ('a' <= #[trigger] s[i] <= 'z' || s[i] == '_')
}

/// Relies on `str::to_lowercase`: the result depends on the characters alone,
/// and lowercase letters and underscores are their own lowercase.
#[verifier::external_body]
fn lowercase(s: &str) -> (r: String)
    ensures
        r@ == lower_of(s@),
        is_lower_name(s@) ==> r@ == s@,
{
    s.to_lowercase()
}

impl Strategy {
    pub open spec fn spec_conservative() -> Strategy {
        Strategy::Conservative(ConservativeStrategy::spec_new())
    }

    pub open spec fn spec_balanced() -> Strategy {
        Strategy::Balanced(BalancedStrategy::spec_new())
    }

    pub open spec fn spec_aggressive() -> Strategy {
        Strategy::Aggressive(AggressiveStrategy::spec_new())
    }

    pub open spec fn spec_yield_maximizer() -> Strategy {
        Strategy::YieldMaximizer(YieldMaximizerStrategy::spec_new())
    }

    pub open spec fn spec_risk_parity() -> Strategy {
        Strategy::RiskParity(RiskParityStrategy::spec_new())
    }

    /// The strategy a lowercase name stands for.
    pub open spec fn spec_from_lowercase_name(name: Seq<char>) -> Result<Strategy, SimError> {
        if name == "conservative"@ {
            Ok(Strategy::spec_conservative())
        } else if name == "balanced"@ {
            Ok(Strategy::spec_balanced())
        } else if name == "aggressive"@ {
            Ok(Strategy::spec_aggressive())
        } else if name == "yield_maximizer"@ || name == "yield"@ {
            Ok(Strategy::spec_yield_maximizer())
        } else if name == "risk_parity"@ || name == "risk"@ {
            Ok(Strategy::spec_risk_parity())
        } else {
            Err(SimError::UnknownStrategy)
        }
    }

    /// The strategy a name stands for, ignoring case.
    pub open spec fn spec_from_name(name: Seq<char>) -> Result<Strategy, SimError> {
        Strategy::spec_from_lowercase_name(lower_of(name))
    }

    pub fn conservative() -> (r: Strategy)
        ensures
            r == Strategy::spec_conservative(),
    {
        Strategy::Conservative(ConservativeStrategy::new())
    }

    pub fn balanced() -> (r: Strategy)
        ensures
            r == Strategy::spec_balanced(),
    {
        Strategy::Balanced(BalancedStrategy::new())
    }

    pub fn aggressive() -> (r: Strategy)
        ensures
            r == Strategy::spec_aggressive(),
    {
        Strategy::Aggressive(AggressiveStrategy::new())
    }

    pub fn yield_maximizer() -> (r: Strategy)
        ensures
            r == Strategy::spec_yield_maximizer(),
    {
        Strategy::YieldMaximizer(YieldMaximizerStrategy::new())
    }

    pub fn risk_parity() -> (r: Strategy)
        ensures
            r == Strategy::spec_risk_parity(),
    {
        Strategy::RiskParity(RiskParityStrategy::new())
    }

    /// The strategy named by an already lowercased name: "conservative",
    /// "balanced", "aggressive", "yield_maximizer" or "yield", "risk_parity" or
    /// "risk".
    pub fn from_lowercase_name(name: &str) -> (r: Result<Strategy, SimError>)
        ensures
            r == Strategy::spec_from_lowercase_name(name@),
    {
        let n = name.to_owned();
        if n == "conservative".to_owned() {
            Ok(Strategy::conservative())
        } else if n == "balanced".to_owned() {
            Ok(Strategy::balanced())
        } else if n == "aggressive".to_owned() {
            Ok(Strategy::aggressive())
        } else if n == "yield_maximizer".to_owned() || n == "yield".to_owned() {
            Ok(Strategy::yield_maximizer())
        } else if n == "risk_parity".to_owned() || n == "risk".to_owned() {
            Ok(Strategy::risk_parity())
        } else {
            Err(SimError::UnknownStrategy)
        }
    }

    /// The strategy a name stands for, whatever its case.
    pub fn from_name(name: &str) -> (r: Result<Strategy, SimError>)
        ensures
            r == Strategy::spec_from_name(name@),
            is_lower_name(name@) ==> r == Strategy::spec_from_lowercase_name(name@),
    {
        let lower = lowercase(name);
        Strategy::from_lowercase_name(lower.as_str())
    }

    /// The canonical names of the built-in strategies.
    pub fn list_all() -> (r: Vec<&'static str>)
        ensures
            r@.len() == 5,
            r@[0]@ == "conservative"@,
            r@[1]@ == "balanced"@,
            r@[2]@ == "aggressive"@,
            r@[3]@ == "yield_maximizer"@,
            r@[4]@ == "risk_parity"@,
    {
        vec!["conservative", "balanced", "aggressive", "yield_maximizer", "risk_parity"]
    }
}

impl RoutingStrategy for Strategy {
    open spec fn spec_decisions(&self, portfolio: PortfolioView, now: Timestamp) -> Seq<DecisionView> {
        match self {
            Strategy::Conservative(s) => s.spec_decisions(portfolio, now),
            Strategy::Balanced(s) => s.spec_decisions(portfolio, now),
            Strategy::Aggressive(s) => s.spec_decisions(portfolio, now),
            Strategy::YieldMaximizer(s) => s.spec_decisions(portfolio, now),
            Strategy::RiskParity(s) => s.spec_decisions(portfolio, now),
        }
    }

    open spec fn spec_name(&self) -> Seq<char> {
        match self {
            Strategy::Conservative(s) => s.spec_name(),
            Strategy::Balanced(s) => s.spec_name(),
            Strategy::Aggressive(s) => s.spec_name(),
            Strategy::YieldMaximizer(s) => s.spec_name(),
            Strategy::RiskParity(s) => s.spec_name(),
        }
    }

    fn generate_routing_decisions(
        &self,
        portfolio: &Portfolio,
        market_state: &Vec<PriceQuote>,
        now: Timestamp,
    ) -> (r: Result<Vec<RoutingDecision>, SimError>) {
        match self {
            Strategy::Conservative(s) => s.generate_routing_decisions(portfolio, market_state, now),
            Strategy::Balanced(s) => s.generate_routing_decisions(portfolio, market_state, now),
            Strategy::Aggressive(s) => s.generate_routing_decisions(portfolio, market_state, now),
            Strategy::YieldMaximizer(s) => s.generate_routing_decisions(portfolio, market_state, now),
            Strategy::RiskParity(s) => s.generate_routing_decisions(portfolio, market_state, now),
        }
    }

    fn name(&self) -> (r: &'static str) {
        match self {
            Strategy::Conservative(s) => s.name(),
            Strategy::Balanced(s) => s.name(),
            Strategy::Aggressive(s) => s.name(),
            Strategy::YieldMaximizer(s) => s.name(),
            Strategy::RiskParity(s) => s.name(),
        }
    }
}

/// Looking a strategy up by any name that lowercases to "balanced" gives the
/// balanced strategy, which therefore makes exactly the decisions that
/// `Strategy::balanced()` makes, on every portfolio and at every instant.
/// "balanced" itself is such a name (it is already lowercase), and looking it
/// up as a lowercase name gives the balanced strategy.
pub proof fn lemma_balanced_by_name(name: Seq<char>, portfolio: PortfolioView, now: Timestamp)
    requires
        lower_of(name) == "balanced"@,
    ensures
        is_lower_name("balanced"@),
        Strategy::spec_from_lowercase_name("balanced"@) == Ok::<Strategy, SimError>(
            Strategy::spec_balanced(),
        ),
        Strategy::spec_from_name(name) == Ok::<Strategy, SimError>(Strategy::spec_balanced()),
        Strategy::spec_from_name(name).unwrap().spec_decisions(portfolio, now)
            == Strategy::spec_balanced().spec_decisions(portfolio, now),
{
    reveal_strlit("balanced");
    reveal_strlit("conservative");
    assert("balanced"@ != "conservative"@) by {
        assert("balanced"@[0] != "conservative"@[0]);
    }
}

} // verus!
