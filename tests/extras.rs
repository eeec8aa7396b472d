use vaulta_simulator::decimal::Decimal;
use vaulta_simulator::market::{MarketDataProvider, MockMarketDataProvider};
use vaulta_simulator::optimizer::StrategyOptimizer;
use vaulta_simulator::risk::tail_index;
use vaulta_simulator::strategy::Strategy;
use vaulta_simulator::types::{RiskParameters, SimError};
use vaulta_simulator::utils::percentage_change;

fn whole(n: i128) -> Decimal {
    Decimal::new(n, 0)
}

#[test]
fn percentage_change_of_values() {
    assert!(percentage_change(whole(200), whole(250)).eq_value(&whole(25)));
    assert!(percentage_change(whole(200), whole(100)).eq_value(&whole(-50)));
    assert!(percentage_change(whole(0), whole(100)).eq_value(&whole(0)));
}

#[test]
fn default_risk_parameters() {
    let r = RiskParameters::default();
    assert!(r.max_position_size_pct.eq_value(&whole(20)));
    assert!(r.max_leverage.eq_value(&whole(1)));
    assert!(r.stop_loss_pct.eq_value(&whole(5)));
    assert!(r.take_profit_pct.eq_value(&whole(10)));
    assert!(r.max_drawdown_pct.eq_value(&whole(15)));
    assert!(r.correlation_limit.eq_value(&Decimal::new(7, 1)));
}

#[test]
fn optimizer_keeps_strategy_and_scores_failed_run_zero() {
    let opt = StrategyOptimizer::new();
    assert_eq!(opt.population_size, 50);
    assert_eq!(opt.optimize(Strategy::aggressive()), Ok(Strategy::aggressive()));
    // the balanced strategy runs out of cash on its first step
    assert!(opt.evaluate_fitness(&Strategy::balanced()).eq_value(&whole(0)));
    assert!(opt.evaluate_fitness(&Strategy::conservative()).ge(&whole(0)));
}

#[test]
fn mock_provider_lookups() {
    let m = MockMarketDataProvider::new();
    assert!(m.get_current_price("ETH").unwrap().eq_value(&whole(2000)));
    assert!(m.get_current_price("BTC").unwrap().eq_value(&whole(40000)));
    assert!(m.get_volatility("SOL").unwrap().eq_value(&Decimal::new(6, 2)));
    assert!(m.get_yield_rate("USDC").unwrap().eq_value(&Decimal::new(5, 2)));
    assert_eq!(m.get_current_price("DOGE"), Err(SimError::LookupNotFound));
    assert_eq!(m.get_yield_rate("DOGE"), Err(SimError::LookupNotFound));
}

#[test]
fn mock_provider_history_ends_at_current_price() {
    let m = MockMarketDataProvider::new();
    let h = m.get_historical_prices("SOL", 30).unwrap();
    assert_eq!(h.len(), 30);
    assert!(h[29].eq_value(&whole(100)));
    for w in h.windows(2) {
        let lo = w[1].abs();
        assert!(w[0].ge(&Decimal::new(0, 0)));
        assert!(lo.gt(&Decimal::new(0, 0)));
    }
    assert_eq!(m.get_historical_prices("SOL", 0).unwrap().len(), 1);
    assert!(m.get_historical_prices("DOGE", 5).is_err());
}

#[test]
fn tail_index_is_exact_floor() {
    assert_eq!(tail_index(5, Decimal::new(95, 2)), 0);
    assert_eq!(tail_index(10, Decimal::new(9, 1)), 1);
    assert_eq!(tail_index(20, Decimal::new(95, 2)), 1);
    assert_eq!(tail_index(100, whole(0)), 100);
    assert_eq!(tail_index(3, Decimal::new(15, 1)), 0);
    assert_eq!(tail_index(usize::MAX, Decimal::new(5, 1)), usize::MAX / 2);
}

#[test]
fn mock_provider_unknown_volatility() {
    let m = MockMarketDataProvider::new();
    assert!(m.get_volatility("USDC").unwrap().eq_value(&Decimal::new(1, 3)));
    assert_eq!(m.get_volatility("usdc"), Err(SimError::LookupNotFound));
}
