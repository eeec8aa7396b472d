//! Portfolio-level analysis: diversification, yield and risk.
use crate::decimal::{difference, product, sum, Decimal};
use crate::types::{sum_values, Portfolio, PortfolioView, PositionView};
use vstd::prelude::*;

verus! {

/// The squared shares `(value / total)²` of the positions, added up in order
/// from zero.
pub open spec fn squared_shares(ps: Seq<PositionView>, total: Decimal) -> Decimal
    decreases ps.len(),
{
    if ps.len() == 0 {
        Decimal::spec_zero()
    } else {
        let share = ps.last().current_value.spec_quotient_or_zero(total);
        squared_shares(ps.drop_last(), total).spec_sum(share.spec_product(share))
    }
}

/// The value-weighted sum of the positions' yield rates (`volatility` false)
/// or volatilities (`volatility` true), the weights being value / `total`.
pub open spec fn weighted(ps: Seq<PositionView>, total: Decimal, volatility: bool) -> Decimal
    decreases ps.len(),
{
    if ps.len() == 0 {
        Decimal::spec_zero()
    } else {
        let p = ps.last();
        let weight = p.current_value.spec_quotient_or_zero(total);
        let rate = if volatility {
            p.asset.volatility
        } else {
            p.asset.yield_rate
        };
        weighted(ps.drop_last(), total, volatility).spec_sum(weight.spec_product(rate))
    }
}

/// `1 − Σ share²` (one minus the Herfindahl index of the position values);
/// zero without positions or when the positions are worth zero in all.
pub open spec fn spec_diversification(p: PortfolioView) -> Decimal {
    let total = sum_values(p.positions);
    if p.positions.len() == 0 || total.units() == 0 {
        Decimal::spec_zero()
    } else {
        Decimal::spec_lit(1, 0).spec_difference(squared_shares(p.positions, total))
    }
}

/// The value-weighted average against the total value; zero without
/// positions or when the total value is not positive.
pub open spec fn spec_weighted_average(p: PortfolioView, volatility: bool) -> Decimal {
    if p.positions.len() == 0 || p.total_value.units() <= 0 {
        Decimal::spec_zero()
    } else {
        weighted(p.positions, p.total_value, volatility)
    }
}

/// Analysis of a portfolio's composition.
pub struct PortfolioAnalyzer;

impl PortfolioAnalyzer {
    /// A diversification score in `[0, 1]`, as [`spec_diversification`]
    /// describes it.
    pub fn diversification_score(portfolio: &Portfolio) -> (r: Decimal)
        requires
            portfolio@.wf(),
        ensures
            r == spec_diversification(portfolio@),
            r.wf(),
    {
        if portfolio.positions.len() == 0 {
            return Decimal::zero();
        }
        let total = portfolio.positions_value();
        if total.is_zero() {
            return Decimal::zero();
        }
        let ghost ps = portfolio@.positions;
        let mut herfindahl = Decimal::zero();
        let mut i: usize = 0;
        while i < portfolio.positions.len()
            invariant
                portfolio@.wf(),
                ps == portfolio@.positions,
                total.wf(),
                i <= ps.len(),
                herfindahl == squared_shares(ps.take(i as int), total),
                herfindahl.wf(),
            decreases ps.len() - i,
        {
            proof {
                assert(ps.take(i as int + 1).drop_last() =~= ps.take(i as int));
                assert(ps[i as int].wf());
            }
            let share = portfolio.positions[i].current_value.quotient_or_zero(&total);
            herfindahl = sum(herfindahl, product(share, share));
            i += 1;
        }
        proof {
            assert(ps.take(i as int) =~= ps);
        }
        difference(Decimal::new(1, 0), herfindahl)
    }

    fn weighted_average(portfolio: &Portfolio, volatility: bool) -> (r: Decimal)
        requires
            portfolio@.wf(),
        ensures
            r == spec_weighted_average(portfolio@, volatility),
            r.wf(),
    {
        if portfolio.positions.len() == 0 {
            return Decimal::zero();
        }
        let total = portfolio.total_value;
        if total.le(&Decimal::zero()) {
            return Decimal::zero();
        }
        let ghost ps = portfolio@.positions;
        let mut acc = Decimal::zero();
        let mut i: usize = 0;
        while i < portfolio.positions.len()
            invariant
                portfolio@.wf(),
                ps == portfolio@.positions,
                total == portfolio@.total_value,
                i <= ps.len(),
                acc == weighted(ps.take(i as int), total, volatility),
                acc.wf(),
            decreases ps.len() - i,
        {
            proof {
                assert(ps.take(i as int + 1).drop_last() =~= ps.take(i as int));
                assert(ps[i as int].wf());
            }
            let position = &portfolio.positions[i];
            let weight = position.current_value.quotient_or_zero(&total);
            let rate = if volatility {
                position.asset.volatility
            } else {
                position.asset.yield_rate
            };
            acc = sum(acc, product(weight, rate));
            i += 1;
        }
        proof {
            assert(ps.take(i as int) =~= ps);
        }
        acc
    }

    /// The value-weighted yield rate of the positions.
    pub fn portfolio_yield(portfolio: &Portfolio) -> (r: Decimal)
        requires
            portfolio@.wf(),
        ensures
            r == spec_weighted_average(portfolio@, false),
            r.wf(),
    {
        Self::weighted_average(portfolio, false)
    }

    /// The value-weighted volatility of the positions.
    pub fn portfolio_risk(portfolio: &Portfolio) -> (r: Decimal)
        requires
            portfolio@.wf(),
        ensures
            r == spec_weighted_average(portfolio@, true),
            r.wf(),
    {
        Self::weighted_average(portfolio, true)
    }
}

} // verus!
