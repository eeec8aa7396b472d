//! Market-data providers, and a mock one with fixed tables.
use crate::decimal::{product, sum, Decimal};
use crate::risk::all_wf;
use crate::simulator::draw_below;
use crate::types::{PriceQuote, SimError};
use vstd::prelude::*;

verus! {

/// The first entry of a table for `sym`.
pub open spec fn table_lookup(t: Seq<(Seq<char>, Decimal)>, sym: Seq<char>) -> Option<Decimal>
    decreases t.len(),
{
    if t.len() == 0 {
        None
    } else if t[0].0 == sym {
        Some(t[0].1)
    } else {
        table_lookup(t.skip(1), sym)
    }
}

pub open spec fn table_view(t: Seq<PriceQuote>) -> Seq<(Seq<char>, Decimal)> {
    t.map_values(|q: PriceQuote| q@)
}

pub open spec fn table_wf(t: Seq<PriceQuote>) -> bool {
    forall|i: int| 0 <= i < t.len() ==> (#[trigger] t[i]).price.wf()
}

pub open spec fn found_or_missing(v: Option<Decimal>) -> Result<Decimal, SimError> {
    match v {
        Some(x) => Ok(x),
        None => Err(SimError::LookupNotFound),
    }
}

/// Number of equally likely daily changes in a mock price walk.
pub const WALK_DRAWS: u64 = 40000000000000000;

/// A daily change of a mock price walk: uniform on `[-0.02, 0.02)`.
pub open spec fn walk_change(k: int) -> Decimal {
    Decimal::spec_lit(k - 20000000000000000, 18)
}

/// `later` is `earlier` moved by one daily change of a mock price walk.
pub open spec fn walk_step(later: Decimal, earlier: Decimal) -> bool {
    exists|k: int|
        0 <= k < WALK_DRAWS && later == earlier.spec_product(
            Decimal::spec_lit(1, 0).spec_sum(walk_change(k)),
        )
}

/// A source of prices, volatilities and yields.
pub trait MarketDataProvider {
    spec fn wf(&self) -> bool;

    spec fn spec_price(&self, symbol: Seq<char>) -> Option<Decimal>;

    spec fn spec_volatility(&self, symbol: Seq<char>) -> Option<Decimal>;

    spec fn spec_yield_rate(&self, symbol: Seq<char>) -> Option<Decimal>;

    fn get_current_price(&self, symbol: &str) -> (r: Result<Decimal, SimError>)
        requires
            self.wf(),
        ensures
            r == found_or_missing(self.spec_price(symbol@)),
            r matches Ok(p) ==> p.wf(),
    ;

    /// `max(days, 1)` daily prices, oldest first, ending at the current
    /// price; each day's price is the next day's times one plus a change.
    fn get_historical_prices(&self, symbol: &str, days: usize) -> (r: Result<Vec<Decimal>, SimError>)
        requires
            self.wf(),
        ensures
            self.spec_price(symbol@) is None ==> r == Err::<Vec<Decimal>, SimError>(
                SimError::LookupNotFound,
            ),
            self.spec_price(symbol@) matches Some(p) ==> r matches Ok(v) && v.len() == (if days
                == 0 {
                1
            } else {
                days
            }) && v@.last() == p && forall|i: int|
                0 <= i < v.len() - 1 ==> walk_step(#[trigger] v@[i], v@[i + 1]),
    ;

    fn get_volatility(&self, symbol: &str) -> (r: Result<Decimal, SimError>)
        requires
            self.wf(),
        ensures
            r == found_or_missing(self.spec_volatility(symbol@)),
    ;

    fn get_yield_rate(&self, symbol: &str) -> (r: Result<Decimal, SimError>)
        requires
            self.wf(),
        ensures
            r == found_or_missing(self.spec_yield_rate(symbol@)),
    ;
}

/// The first entry of `table` for `symbol`.
fn lookup(table: &Vec<PriceQuote>, symbol: &str) -> (r: Option<Decimal>)
    requires
        table_wf(table@),
    ensures
        r == table_lookup(table_view(table@), symbol@),
        r matches Some(p) ==> p.wf(),
{
    let key = symbol.to_owned();
    let ghost t = table_view(table@);
    let mut i: usize = 0;
    proof {
        assert(t.skip(0) =~= t);
    }
    while i < table.len()
        invariant
            table_wf(table@),
            t == table_view(table@),
            key@ == symbol@,
            i <= table.len(),
            table_lookup(t, symbol@) == table_lookup(t.skip(i as int), symbol@),
        decreases table.len() - i,
    {
        proof {
            assert(t.skip(i as int)[0] == t[i as int]);
            assert(t.skip(i as int).skip(1) =~= t.skip(i as int + 1));
        }
        if table[i].symbol == key {
            return Some(table[i].price);
        }
        i += 1;
    }
    None
}

/// The entry for `sym` in a table of "USDC", "ETH", "BTC" and "SOL".
pub open spec fn mock_entry(sym: Seq<char>, usdc: Decimal, eth: Decimal, btc: Decimal, sol: Decimal) -> Option<Decimal> {
    if sym == "USDC"@ {
        Some(usdc)
    } else if sym == "ETH"@ {
        Some(eth)
    } else if sym == "BTC"@ {
        Some(btc)
    } else if sym == "SOL"@ {
        Some(sol)
    } else {
        None
    }
}

pub open spec fn mock_table(usdc: Decimal, eth: Decimal, btc: Decimal, sol: Decimal) -> Seq<(Seq<char>, Decimal)> {
    seq![("USDC"@, usdc), ("ETH"@, eth), ("BTC"@, btc), ("SOL"@, sol)]
}

proof fn lemma_mock_table(usdc: Decimal, eth: Decimal, btc: Decimal, sol: Decimal, sym: Seq<char>)
    ensures
        table_lookup(mock_table(usdc, eth, btc, sol), sym) == mock_entry(sym, usdc, eth, btc, sol),
{
    let t = mock_table(usdc, eth, btc, sol);
    assert(t.skip(1) =~= seq![("ETH"@, eth), ("BTC"@, btc), ("SOL"@, sol)]);
    assert(t.skip(1).skip(1) =~= seq![("BTC"@, btc), ("SOL"@, sol)]);
    assert(t.skip(1).skip(1).skip(1) =~= seq![("SOL"@, sol)]);
    assert(t.skip(1).skip(1).skip(1).skip(1) =~= Seq::<(Seq<char>, Decimal)>::empty());
    reveal_with_fuel(table_lookup, 5);
}

/// A provider with fixed tables for "USDC", "ETH", "BTC" and "SOL".
pub struct MockMarketDataProvider {
    prices: Vec<PriceQuote>,
    volatilities: Vec<PriceQuote>,
    yields: Vec<PriceQuote>,
}

fn quote(symbol: &str, price: Decimal) -> (r: PriceQuote)
    ensures
        r@ == (symbol@, price),
{
    PriceQuote { symbol: symbol.to_owned(), price }
}

impl MockMarketDataProvider {
    /// Prices 1, 2000, 40000, 100; volatilities 0.001, 0.05, 0.04, 0.06;
    /// yields 0.05, 0.08, 0.06, 0.10 (for "USDC", "ETH", "BTC", "SOL").
    pub fn new() -> (r: MockMarketDataProvider)
        ensures
            r.wf(),
            forall|sym: Seq<char>|
                #[trigger] r.spec_price(sym) == mock_entry(
                    sym,
                    Decimal::spec_lit(1, 0),
                    Decimal::spec_lit(2000, 0),
                    Decimal::spec_lit(40000, 0),
                    Decimal::spec_lit(100, 0),
                ),
            forall|sym: Seq<char>|
                #[trigger] r.spec_volatility(sym) == mock_entry(
                    sym,
                    Decimal::spec_lit(1, 3),
                    Decimal::spec_lit(5, 2),
                    Decimal::spec_lit(4, 2),
                    Decimal::spec_lit(6, 2),
                ),
            forall|sym: Seq<char>|
                #[trigger] r.spec_yield_rate(sym) == mock_entry(
                    sym,
                    Decimal::spec_lit(5, 2),
                    Decimal::spec_lit(8, 2),
                    Decimal::spec_lit(6, 2),
                    Decimal::spec_lit(10, 2),
                ),
    {
        let mut prices: Vec<PriceQuote> = Vec::new();
        prices.push(quote("USDC", Decimal::new(1, 0)));
        prices.push(quote("ETH", Decimal::new(2000, 0)));
        prices.push(quote("BTC", Decimal::new(40000, 0)));
        prices.push(quote("SOL", Decimal::new(100, 0)));
        let mut volatilities: Vec<PriceQuote> = Vec::new();
        volatilities.push(quote("USDC", Decimal::new(1, 3)));
        volatilities.push(quote("ETH", Decimal::new(5, 2)));
        volatilities.push(quote("BTC", Decimal::new(4, 2)));
        volatilities.push(quote("SOL", Decimal::new(6, 2)));
        let mut yields: Vec<PriceQuote> = Vec::new();
        yields.push(quote("USDC", Decimal::new(5, 2)));
        yields.push(quote("ETH", Decimal::new(8, 2)));
        yields.push(quote("BTC", Decimal::new(6, 2)));
        yields.push(quote("SOL", Decimal::new(10, 2)));
        let r = MockMarketDataProvider { prices, volatilities, yields };
        proof {
            let p = mock_table(
                Decimal::spec_lit(1, 0),
                Decimal::spec_lit(2000, 0),
                Decimal::spec_lit(40000, 0),
                Decimal::spec_lit(100, 0),
            );
            let v = mock_table(
                Decimal::spec_lit(1, 3),
                Decimal::spec_lit(5, 2),
                Decimal::spec_lit(4, 2),
                Decimal::spec_lit(6, 2),
            );
            let y = mock_table(
                Decimal::spec_lit(5, 2),
                Decimal::spec_lit(8, 2),
                Decimal::spec_lit(6, 2),
                Decimal::spec_lit(10, 2),
            );
            assert(table_view(r.prices@) =~= p);
            assert(table_view(r.volatilities@) =~= v);
            assert(table_view(r.yields@) =~= y);
            assert forall|sym: Seq<char>|
                #[trigger] r.spec_price(sym) == mock_entry(sym, p[0].1, p[1].1, p[2].1, p[3].1) by {
                lemma_mock_table(p[0].1, p[1].1, p[2].1, p[3].1, sym);
            }
            assert forall|sym: Seq<char>|
                #[trigger] r.spec_volatility(sym) == mock_entry(sym, v[0].1, v[1].1, v[2].1, v[3].1) by {
                lemma_mock_table(v[0].1, v[1].1, v[2].1, v[3].1, sym);
            }
            assert forall|sym: Seq<char>|
                #[trigger] r.spec_yield_rate(sym) == mock_entry(sym, y[0].1, y[1].1, y[2].1, y[3].1) by {
                lemma_mock_table(y[0].1, y[1].1, y[2].1, y[3].1, sym);
            }
        }
        r
    }
}

impl MarketDataProvider for MockMarketDataProvider {
    closed spec fn wf(&self) -> bool {
        table_wf(self.prices@) && table_wf(self.volatilities@) && table_wf(self.yields@)
    }

    closed spec fn spec_price(&self, symbol: Seq<char>) -> Option<Decimal> {
        table_lookup(table_view(self.prices@), symbol)
    }

    closed spec fn spec_volatility(&self, symbol: Seq<char>) -> Option<Decimal> {
        table_lookup(table_view(self.volatilities@), symbol)
    }

    closed spec fn spec_yield_rate(&self, symbol: Seq<char>) -> Option<Decimal> {
        table_lookup(table_view(self.yields@), symbol)
    }

    fn get_current_price(&self, symbol: &str) -> (r: Result<Decimal, SimError>) {
        match lookup(&self.prices, symbol) {
            Some(p) => Ok(p),
            None => Err(SimError::LookupNotFound),
        }
    }

    fn get_historical_prices(&self, symbol: &str, days: usize) -> (r: Result<Vec<Decimal>, SimError>) {
        let base = match self.get_current_price(symbol) {
            Ok(p) => p,
            Err(e) => {
                return Err(e);
            },
        };
        let one = Decimal::new(1, 0);
        let mut walk: Vec<Decimal> = Vec::new();
        walk.push(base);
        let mut day: usize = 1;
        while day < days
            invariant
                1 <= day <= (if days == 0 {
                    1
                } else {
                    days
                }),
                walk.len() == day,
                walk@[0] == base,
                base.wf(),
                one == Decimal::spec_lit(1, 0),
                all_wf(walk@),
                forall|i: int| 0 < i < walk.len() ==> walk_step(#[trigger] walk@[i], walk@[i - 1]),
            decreases days - day,
        {
            let k = draw_below(WALK_DRAWS);
            let change = Decimal::new(k as i128 - 20000000000000000, 18);
            let next = product(walk[day - 1], sum(one, change));
            proof {
                assert(change == walk_change(k as int));
                assert(walk_step(next, walk@[day - 1]));
            }
            let ghost prev = walk@;
            walk.push(next);
            proof {
                assert forall|i: int| 0 < i < walk.len() implies walk_step(#[trigger] walk@[i], walk@[i - 1]) by {
                    if i < day {
                        assert(walk@[i] == prev[i] && walk@[i - 1] == prev[i - 1]);
                    }
                }
            }
            day += 1;
        }
        let n = walk.len();
        let mut prices: Vec<Decimal> = Vec::new();
        let mut j: usize = 0;
        while j < n
            invariant
                n == walk.len(),
                n == (if days == 0 {
                    1
                } else {
                    days
                }),
                walk@[0] == base,
                one == Decimal::spec_lit(1, 0),
                forall|i: int| 0 < i < walk.len() ==> walk_step(#[trigger] walk@[i], walk@[i - 1]),
                n >= 1,
                j <= n,
                prices.len() == j,
                forall|i: int| 0 <= i < j ==> prices@[i] == walk@[n - 1 - i],
            decreases n - j,
        {
            prices.push(walk[n - 1 - j]);
            j += 1;
        }
        proof {
            assert(prices@[n - 1] == walk@[0]);
            assert forall|i: int| 0 <= i < prices.len() - 1 implies walk_step(
                #[trigger] prices@[i],
                prices@[i + 1],
            ) by {
                let m = n - 1 - i;
                assert(0 < m < walk.len());
                assert(prices@[i] == walk@[m]);
                assert(prices@[i + 1] == walk@[m - 1]);
            }
        }
        Ok(prices)
    }

    fn get_volatility(&self, symbol: &str) -> (r: Result<Decimal, SimError>) {
        match lookup(&self.volatilities, symbol) {
            Some(v) => Ok(v),
            None => Err(SimError::LookupNotFound),
        }
    }

    fn get_yield_rate(&self, symbol: &str) -> (r: Result<Decimal, SimError>) {
        match lookup(&self.yields, symbol) {
            Some(y) => Ok(y),
            None => Err(SimError::LookupNotFound),
        }
    }
}

} // verus!
