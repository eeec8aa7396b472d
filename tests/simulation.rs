use vaulta_simulator::decimal::Decimal;
use vaulta_simulator::monte_carlo::{percentile, summarize, MonteCarloEngine};
use vaulta_simulator::portfolio::PortfolioAnalyzer;
use vaulta_simulator::risk::{
    historical_cvar, historical_var, max_drawdown_of, returns_of, sharpe_of, sort_values,
    sqrt_floor, volatility_of, RiskCalculator,
};
use vaulta_simulator::simulator::Simulator;
use vaulta_simulator::strategy::{RoutingStrategy, Strategy};
use vaulta_simulator::types::{
    Asset, AssetType, Portfolio, PortfolioSnapshot, Position, PriceQuote, SimError, Timestamp,
};

fn d(m: i128, s: u32) -> Decimal {
    Decimal::new(m, s)
}

fn whole(n: i128) -> Decimal {
    Decimal::new(n, 0)
}

fn same(a: Decimal, b: Decimal) -> bool {
    a.eq_value(&b)
}

fn asset(symbol: &str, price: Decimal) -> Asset {
    Asset {
        symbol: symbol.to_string(),
        name: format!("Asset {}", symbol),
        asset_type: AssetType::Crypto,
        current_price: price,
        volatility: d(2, 2),
        yield_rate: d(5, 2),
    }
}

fn snapshot(total: i128) -> PortfolioSnapshot {
    PortfolioSnapshot {
        timestamp: Timestamp { unix_nanos: 0 },
        total_value: whole(total),
        cash: whole(total),
        positions_value: whole(0),
        positions_count: 0,
    }
}

#[test]
fn decimal_comparisons_go_by_value() {
    assert!(same(d(10, 1), whole(1)));
    assert!(d(5, 2).lt(&d(1, 1)));
    assert!(d(-5, 2).lt(&whole(0)));
    assert!(whole(3).gt(&d(29999, 4)));
    assert!(d(-7, 1).abs().eq_value(&d(7, 1)));
}

#[test]
fn square_root_is_rounded_down() {
    assert!(same(sqrt_floor(whole(4)), whole(2)));
    assert!(same(sqrt_floor(whole(0)), whole(0)));
    let r = sqrt_floor(whole(2));
    assert!(r.gt(&d(141421356, 8)) && r.lt(&d(141421357, 8)));
    let q = sqrt_floor(d(1, 2));
    assert!(same(q, d(1, 1)));
}

#[test]
fn total_value_is_cash_plus_positions() {
    let mut p = Portfolio::new(whole(10000));
    p.add_position(Position::new(asset("ETH", whole(2000)), whole(2), whole(2000)));
    p.add_position(Position::new(asset("BTC", whole(400)), d(5, 1), whole(400)));
    assert!(same(p.cash, whole(5800)));
    p.cash = whole(7000);
    p.update_total_value();
    assert!(same(p.total_value, whole(7000 + 4000 + 200)));
    assert!(same(p.positions_value(), whole(4200)));
}

#[test]
fn add_position_replaces_same_symbol() {
    let mut p = Portfolio::new(whole(10000));
    p.add_position(Position::new(asset("ETH", whole(100)), whole(10), whole(100)));
    p.add_position(Position::new(asset("ETH", whole(100)), whole(5), whole(100)));
    assert_eq!(p.positions.len(), 1);
    assert!(same(p.positions[0].quantity, whole(5)));
    assert!(same(p.cash, whole(10000 - 1000 - 500)));
    assert!(same(p.total_value, whole(9000)));
}

#[test]
fn remove_position_returns_value_to_cash() {
    let mut p = Portfolio::new(whole(1000));
    p.add_position(Position::new(asset("SOL", whole(100)), whole(3), whole(100)));
    assert!(same(p.cash, whole(700)));
    let removed = p.remove_position("SOL").unwrap();
    assert!(same(removed.current_value, whole(300)));
    assert!(same(p.cash, whole(1000)));
    assert!(p.positions.is_empty());
    assert!(p.remove_position("SOL").is_none());
}

#[test]
fn update_prices_moves_price_and_value_together() {
    let mut p = Portfolio::new(whole(0));
    p.add_position(Position::new(asset("ETH", whole(100)), whole(4), whole(100)));
    let quotes = vec![
        PriceQuote { symbol: "ETH".to_string(), price: whole(150) },
        PriceQuote { symbol: "XYZ".to_string(), price: whole(9) },
    ];
    p.update_prices(&quotes);
    assert!(same(p.positions[0].asset.current_price, whole(150)));
    assert!(same(p.positions[0].current_value, whole(600)));
    assert!(same(p.total_value, whole(200)));
}

#[test]
fn position_profit_and_loss() {
    let mut pos = Position::new(asset("ETH", whole(100)), whole(4), whole(100));
    pos.update_price(whole(125));
    assert!(same(pos.current_value, whole(500)));
    assert!(same(pos.unrealized_pnl(), whole(100)));
    assert!(same(pos.unrealized_pnl_pct(), whole(25)));
    let free = Position::new(asset("AIR", whole(3)), whole(1), whole(0));
    assert!(same(free.unrealized_pnl_pct(), whole(0)));
}

#[test]
fn conservative_first_step_opens_usdc_position() {
    let mut sim = Simulator::new(whole(1_000_000), Strategy::conservative());
    assert!(sim.step().is_ok());
    let p = sim.portfolio();
    assert_eq!(p.positions.len(), 1);
    assert_eq!(p.positions[0].asset.symbol, "USDC");
    assert_eq!(p.positions[0].asset.name, "Asset USDC");
    assert!(same(p.positions[0].quantity, whole(300_000)));
    assert!(same(p.positions[0].current_value, whole(300_000)));
    assert!(same(p.cash, whole(699_700)));
    assert!(same(p.total_value, whole(999_700)));
    let h = sim.history();
    assert_eq!(h.len(), 1);
    assert_eq!(h[0].positions_count, 1);
    assert!(same(h[0].positions_value, whole(300_000)));
}

#[test]
fn conservative_makes_no_decision_on_small_cash() {
    let mut p = Portfolio::new(whole(3000));
    let ds = Strategy::conservative().generate_routing_decisions(&p, &vec![], Timestamp { unix_nanos: 1 }).unwrap();
    assert!(ds.is_empty());
    p.cash = whole(4000);
    p.total_value = whole(4000);
    let ds = Strategy::conservative().generate_routing_decisions(&p, &vec![], Timestamp { unix_nanos: 1 }).unwrap();
    assert_eq!(ds.len(), 1);
    assert_eq!(ds[0].target_asset, "USDC");
    assert_eq!(ds[0].source_asset, "USD");
    assert!(same(ds[0].amount, whole(1200)));
    assert!(same(ds[0].execution_cost, d(12, 1)));
}

#[test]
fn top_up_pays_amount_and_fee_from_cash() {
    let mut sim = Simulator::new(whole(1_000_000), Strategy::conservative());
    sim.step().unwrap();
    let no_move = vec![whole(0)];
    let before = sim.portfolio().positions[0].asset.current_price;
    assert!(sim.step_with(&no_move, Timestamp { unix_nanos: 5 }).is_ok());
    let p = sim.portfolio();
    assert_eq!(p.positions.len(), 1);
    assert!(p.positions[0].asset.current_price.gt(&before));
    // 30% of 699,700 is topped up, with a 0.1% fee
    assert!(same(p.cash, d(48958009, 2)));
    assert!(p.positions[0].current_value.gt(&whole(509_910)));
    assert_eq!(sim.step_count(), 2);
}

#[test]
fn balanced_run_stops_on_insufficient_cash() {
    let mut sim = Simulator::new(whole(1_000_000), Strategy::balanced());
    assert_eq!(sim.step(), Err(SimError::InsufficientCash));
    assert_eq!(sim.portfolio().positions.len(), 4);
    assert_eq!(sim.history().len(), 0);
    assert!(same(sim.portfolio().cash, whole(1_000_000 - 800_000 - 1_600)));
}

#[test]
fn zero_price_top_up_is_invalid() {
    let mut sim = Simulator::new(whole(1_000_000), Strategy::conservative());
    sim.step().unwrap();
    let crash = vec![d(-50006849315068493150684931505, 27)];
    assert_eq!(sim.step_with(&crash, Timestamp { unix_nanos: 9 }), Err(SimError::InvalidPrice));
    assert!(same(sim.portfolio().positions[0].asset.current_price, whole(0)));
}

#[test]
fn aggressive_and_yield_maximizer_decisions() {
    let p = Portfolio::new(whole(10_000));
    let t = Timestamp { unix_nanos: 2 };
    let a = Strategy::aggressive().generate_routing_decisions(&p, &vec![], t).unwrap();
    assert_eq!(a.len(), 1);
    assert_eq!(a[0].target_asset, "HIGH_YIELD_POOL");
    assert!(same(a[0].amount, whole(6000)));
    assert!(same(a[0].execution_cost, whole(30)));
    let y = Strategy::yield_maximizer().generate_routing_decisions(&p, &vec![], t).unwrap();
    assert_eq!(y[0].target_asset, "MAX_YIELD");
    assert!(same(y[0].amount, whole(9000)));
    assert!(same(y[0].execution_cost, whole(30)));
    let small = Portfolio::new(whole(1000));
    assert!(Strategy::yield_maximizer().generate_routing_decisions(&small, &vec![], t).unwrap().is_empty());
    assert_eq!(Strategy::aggressive().generate_routing_decisions(&small, &vec![], t).unwrap().len(), 1);
}

#[test]
fn risk_parity_splits_evenly_and_skips_held() {
    let mut p = Portfolio::new(whole(20_000));
    p.add_position(Position::new(asset("ETH", whole(1)), whole(0), whole(1)));
    let ds = Strategy::risk_parity().generate_routing_decisions(&p, &vec![], Timestamp { unix_nanos: 3 }).unwrap();
    let targets: Vec<&str> = ds.iter().map(|x| x.target_asset.as_str()).collect();
    assert_eq!(targets, vec!["USDC", "BTC", "SOL"]);
    assert!(same(ds[0].amount, whole(5000)));
    assert!(same(ds[0].execution_cost, whole(10)));
    let tiny = Portfolio::new(whole(1900));
    assert!(Strategy::risk_parity().generate_routing_decisions(&tiny, &vec![], Timestamp { unix_nanos: 3 }).unwrap().is_empty());
}

#[test]
fn balanced_by_name_matches_constructor() {
    assert_eq!(Strategy::from_name("balanced"), Ok(Strategy::balanced()));
    assert_eq!(Strategy::from_name("BaLaNcEd"), Ok(Strategy::balanced()));
    let p = Portfolio::new(whole(50_000));
    let t = Timestamp { unix_nanos: 4 };
    let a = Strategy::from_name("balanced").unwrap().generate_routing_decisions(&p, &vec![], t).unwrap();
    let b = Strategy::balanced().generate_routing_decisions(&p, &vec![], t).unwrap();
    assert_eq!(a.len(), 5);
    assert_eq!(a.len(), b.len());
    for (x, y) in a.iter().zip(b.iter()) {
        assert_eq!(x.target_asset, y.target_asset);
        assert_eq!(x.amount, y.amount);
        assert_eq!(x.execution_cost, y.execution_cost);
        assert_eq!(x.risk_score, y.risk_score);
    }
    assert!(same(a[0].amount, whole(10_000)));
}

#[test]
fn strategy_names_and_aliases() {
    assert_eq!(Strategy::from_name("yield"), Ok(Strategy::yield_maximizer()));
    assert_eq!(Strategy::from_name("RISK"), Ok(Strategy::risk_parity()));
    assert_eq!(Strategy::from_name("Conservative"), Ok(Strategy::conservative()));
    assert_eq!(Strategy::from_name("aggressive"), Ok(Strategy::aggressive()));
    assert_eq!(Strategy::from_name("momentum"), Err(SimError::UnknownStrategy));
    assert_eq!(
        Strategy::list_all(),
        vec!["conservative", "balanced", "aggressive", "yield_maximizer", "risk_parity"]
    );
    assert_eq!(Strategy::risk_parity().name(), "risk_parity");
    assert_eq!(Strategy::yield_maximizer().name(), "yield_maximizer");
}

#[test]
fn drawdown_of_rising_series_is_zero() {
    let values = vec![whole(100), whole(110), whole(121)];
    assert!(same(max_drawdown_of(&values), whole(0)));
    let history = vec![snapshot(100), snapshot(110), snapshot(121)];
    assert!(same(RiskCalculator::max_drawdown(&history), whole(0)));
}

#[test]
fn drawdown_tracks_running_peak() {
    let values = vec![whole(100), whole(80), whole(120), whole(60)];
    assert!(same(max_drawdown_of(&values), whole(50)));
    assert!(same(RiskCalculator::max_drawdown(&vec![snapshot(100)]), whole(0)));
}

#[test]
fn sharpe_of_constant_returns_is_zero() {
    let series = vec![d(1, 2), d(1, 2), d(1, 2)];
    assert!(same(sharpe_of(&series, whole(0)), whole(0)));
    assert!(same(RiskCalculator::sharpe_ratio(&series, d(5, 3)), whole(0)));
    assert!(same(sharpe_of(&vec![], whole(0)), whole(0)));
}

#[test]
fn sharpe_and_volatility_of_varying_returns() {
    let series = vec![d(1, 2), d(3, 2)];
    let s = sharpe_of(&series, whole(0));
    // mean 0.02, stdev 0.01, so 2 × √252 ≈ 31.749
    assert!(s.gt(&d(31748, 3)) && s.lt(&d(31750, 3)));
    let v = volatility_of(&series);
    // 0.01 × √252 × 100 ≈ 15.8745
    assert!(v.gt(&d(158745, 4)) && v.lt(&d(158746, 4)));
}

#[test]
fn returns_between_values() {
    let r = returns_of(&vec![whole(100), whole(110), whole(0), whole(5)]);
    assert_eq!(r.len(), 3);
    assert!(same(r[0], d(1, 1)));
    assert!(same(r[1], whole(-1)));
    assert!(same(r[2], whole(0)));
}

#[test]
fn var_at_95_selects_lowest_return() {
    let series = vec![d(-5, 2), d(-1, 2), whole(0), d(2, 2), d(3, 2)];
    let var = historical_var(&series, d(95, 2), whole(1_000_000));
    assert!(same(var, whole(50_000)));
    let shuffled = vec![d(3, 2), whole(0), d(-1, 2), d(2, 2), d(-5, 2)];
    assert!(same(historical_var(&shuffled, d(95, 2), whole(1_000_000)), whole(50_000)));
    assert!(same(historical_var(&vec![], d(95, 2), whole(1_000_000)), whole(0)));
}

#[test]
fn cvar_averages_tail_below_index() {
    let series = vec![d(-5, 2), d(-1, 2), whole(0), d(2, 2), d(3, 2)];
    assert!(same(historical_cvar(&series, d(95, 2), whole(1_000_000)), whole(0)));
    // at 60% the index is 2, so the tail is [-0.05, -0.01] with mean -0.03
    assert!(same(historical_cvar(&series, d(6, 1), whole(1_000_000)), whole(30_000)));
}

#[test]
fn parametric_var_and_cvar() {
    let p = Portfolio::new(whole(1_000_000));
    assert!(same(RiskCalculator::value_at_risk(&p, d(95, 2), 252), whole(50_000)));
    assert!(same(RiskCalculator::conditional_var(&p, d(95, 2), 252), whole(65_000)));
}

#[test]
fn sorting_is_ascending_by_value() {
    let s = sort_values(&vec![whole(3), d(-1, 1), whole(2), d(20, 1), whole(0)]);
    assert!(same(s[0], d(-1, 1)));
    assert!(same(s[1], whole(0)));
    assert_eq!(s[2], whole(2));
    assert_eq!(s[3], d(20, 1));
    assert!(same(s[4], whole(3)));
}

#[test]
fn percentiles_are_ordered_by_rank() {
    let values: Vec<Decimal> = (0..20).map(|i| whole((i * 37) % 20)).collect();
    let r = summarize(values, d(95, 2));
    let ranks: Vec<u8> = r.percentiles.iter().map(|p| p.0).collect();
    assert_eq!(ranks, vec![5, 25, 50, 75, 95]);
    for w in r.percentiles.windows(2) {
        assert!(w[0].1.le(&w[1].1));
    }
    assert!(same(r.percentiles[0].1, whole(1)));
    assert!(same(r.percentiles[4].1, whole(19)));
    assert!(same(r.value_at_risk, whole(1)));
    assert!(same(r.conditional_var, whole(0)));
    assert!(same(r.expected_value, d(95, 1)));
    assert!(same(r.max_drawdown_pct, d(9999905, 5)));
    assert!(same(percentile(&vec![], 50), whole(0)));
}

#[test]
fn monte_carlo_summary_has_five_ordered_ranks() {
    let mut engine = MonteCarloEngine::new(500, 100);
    let r = engine.run_stress_test(d(95, 2)).unwrap();
    assert_eq!(r.iterations, 500);
    assert_eq!(r.distribution.len(), 500);
    let ranks: Vec<u8> = r.percentiles.iter().map(|p| p.0).collect();
    assert_eq!(ranks, vec![5, 25, 50, 75, 95]);
    for w in r.percentiles.windows(2) {
        assert!(w[0].1.le(&w[1].1));
    }
}

#[test]
fn diversification_yield_and_risk() {
    let mut p = Portfolio::new(whole(1000));
    assert!(same(PortfolioAnalyzer::diversification_score(&p), whole(0)));
    p.add_position(Position::new(asset("ETH", whole(1)), whole(300), whole(1)));
    p.add_position(Position::new(asset("BTC", whole(1)), whole(300), whole(1)));
    assert!(same(PortfolioAnalyzer::diversification_score(&p), d(5, 1)));
    // total value 1000, positions 600 with yield 0.05 and volatility 0.02
    assert!(same(PortfolioAnalyzer::portfolio_yield(&p), d(3, 2)));
    assert!(same(PortfolioAnalyzer::portfolio_risk(&p), d(12, 3)));
}

#[test]
fn finalize_measures_against_first_snapshot() {
    let mut sim = Simulator::new(whole(1_000_000), Strategy::conservative());
    sim.step().unwrap();
    sim.step_with(&vec![whole(0)], Timestamp { unix_nanos: 10 }).unwrap();
    sim.step_with(&vec![whole(0)], Timestamp { unix_nanos: 20 }).unwrap();
    let first = sim.history()[0].total_value;
    let r = sim.finalize();
    assert_eq!(r.portfolio_history.len(), 3);
    assert_eq!(r.initial_value, first);
    assert!(same(r.initial_value, whole(999_700)));
    // the fees outweigh one day's yield
    assert!(r.total_return.lt(&whole(0)));
    assert!(r.final_value.lt(&r.initial_value));
    assert!(r.max_drawdown_pct.gt(&whole(0)));
    assert!(r.value_at_risk.ge(&whole(0)));
    assert!(r.volatility_pct.ge(&whole(0)));
    assert_eq!(r.portfolio_history[2].timestamp, Timestamp { unix_nanos: 20 });
}

#[test]
fn finalize_without_steps_is_all_zero() {
    let sim = Simulator::new(whole(500), Strategy::aggressive());
    let r = sim.finalize();
    assert!(same(r.initial_value, whole(0)));
    assert!(same(r.final_value, whole(500)));
    assert!(same(r.total_return_pct, whole(0)));
    assert!(same(r.sharpe_ratio, whole(0)));
    assert!(same(r.value_at_risk, whole(0)));
    assert!(same(r.conditional_var, whole(0)));
}
