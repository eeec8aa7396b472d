//! Risk and performance metrics over value histories and return series.
use crate::decimal::{difference, lemma_pow10_positive, lemma_units_sign, pow10, product, sum, Decimal};
use vstd::arithmetic::div_mod::lemma_hoist_over_denominator;
use crate::types::{Portfolio, PortfolioSnapshot, PortfolioView};
use vstd::prelude::*;

verus! {

pub open spec fn lit(m: int, s: int) -> Decimal {
    Decimal::spec_lit(m, s)
}

// ---------------------------------------------------------------- square root

/// The largest whole number whose square does not exceed `n`, as the pair of
/// facts that pin it down.
pub open spec fn is_isqrt(r: int, n: int) -> bool {
    r >= 0 && r * r <= n && n < (r + 1) * (r + 1)
}

/// Bound below which a working mantissa may still be scaled up by 100.
pub const SCALE_UP_LIMIT: u128 = 0x1_0000_0000_0000_0000_0000_0000_0000;

/// The working mantissa and scale of a square root: an even scale, then as
/// many further factors of 100 as the 128-bit range and a scale of 56 allow.
pub open spec fn sqrt_operand(n: int, s: int) -> (int, int)
    decreases 56 - s,
{
    if s + 2 <= 56 && n < SCALE_UP_LIMIT {
        sqrt_operand(n * 100, s + 2)
    } else {
        (n, s)
    }
}

pub open spec fn sqrt_start(v: Decimal) -> (int, int) {
    if v.scale % 2 == 1 {
        (v.mantissa * 10, v.scale + 1)
    } else {
        (v.mantissa as int, v.scale as int)
    }
}

/// The square root of a non-negative decimal, rounded down to half the
/// working scale; zero for a value that is not positive.
pub open spec fn spec_sqrt(v: Decimal) -> Decimal {
    if v.mantissa <= 0 {
        Decimal::spec_zero()
    } else {
        let (n, s) = sqrt_operand(sqrt_start(v).0, sqrt_start(v).1);
        Decimal::spec_lit(choose|r: int| is_isqrt(r, n), s / 2)
    }
}

proof fn lemma_isqrt_unique(a: int, b: int, n: int)
    requires
        is_isqrt(a, n),
        is_isqrt(b, n),
    ensures
        a == b,
{
    if a < b {
        assert((a + 1) * (a + 1) <= b * b) by (nonlinear_arith)
            requires
                0 <= a < b,
        ;
    } else if b < a {
        assert((b + 1) * (b + 1) <= a * a) by (nonlinear_arith)
            requires
                0 <= b < a,
        ;
    }
}

/// The floor of the square root of `n`.
pub fn isqrt(n: u128) -> (r: u128)
    ensures
        is_isqrt(r as int, n as int),
{
    let mut lo: u128 = 0;
    let mut hi: u128 = 0x1_0000_0000_0000_0000;
    assert(n < hi * hi) by (nonlinear_arith)
        requires
            hi == 0x1_0000_0000_0000_0000u128,
            n <= 0xffff_ffff_ffff_ffff_ffff_ffff_ffff_ffffu128,
    ;
    while hi - lo > 1
        invariant
            lo < hi <= 0x1_0000_0000_0000_0000,
            lo * lo <= n,
            n < hi * hi,
        decreases hi - lo,
    {
        let mid = lo + (hi - lo) / 2;
        assert(mid * mid < 0x1_0000_0000_0000_0000_0000_0000_0000_0000) by (nonlinear_arith)
            requires
                mid < 0x1_0000_0000_0000_0000,
        ;
        if mid * mid <= n {
            lo = mid;
        } else {
            hi = mid;
        }
    }
    assert(hi == lo + 1);
    lo
}

/// The square root of `v` as [`spec_sqrt`] describes it: for a positive `v`
/// of working mantissa `n` and scale `s`, the result is `r / 10^(s/2)` with
/// `r² ≤ n < (r+1)²`.
pub fn sqrt_floor(v: Decimal) -> (r: Decimal)
    requires
        v.wf(),
    ensures
        r == spec_sqrt(v),
        r.wf(),
        r.units() >= 0,
        (r.units() > 0) == (v.units() > 0),
{
    proof {
        lemma_units_sign(v);
    }
    if v.mantissa <= 0 {
        return Decimal::zero();
    }
    let mut n: u128 = v.mantissa as u128;
    let mut s: u32 = v.scale;
    if s % 2 == 1 {
        n = n * 10;
        s = s + 1;
    }
    assert((n as int, s as int) == sqrt_start(v));
    while s + 2 <= 56 && n < SCALE_UP_LIMIT
        invariant
            s <= 56,
            s % 2 == 0,
            n >= 1,
            n < SCALE_UP_LIMIT * 100,
            sqrt_operand(n as int, s as int) == sqrt_operand(sqrt_start(v).0, sqrt_start(v).1),
        decreases 56 - s,
    {
        n = n * 100;
        s = s + 2;
    }
    let root = isqrt(n);
    let ghost target = sqrt_operand(sqrt_start(v).0, sqrt_start(v).1);
    proof {
        assert(target == (n as int, s as int));
        let c = choose|r: int| is_isqrt(r, n as int);
        assert(is_isqrt(root as int, n as int));
        lemma_isqrt_unique(c, root as int, n as int);
        assert(root < 0x1_0000_0000_0000_0000) by (nonlinear_arith)
            requires
                root * root <= n,
                n < 0x1_0000_0000_0000_0000_0000_0000_0000_0000,
        ;
        assert(root >= 1) by (nonlinear_arith)
            requires
                n < (root + 1) * (root + 1),
                n >= 1,
                root >= 0,
        ;
    }
    let r = Decimal::new(root as i128, s / 2);
    proof {
        lemma_units_sign(r);
    }
    r
}

// ---------------------------------------------------------------- return series

/// The return from `prev` to `cur`: `(cur − prev) / prev`, zero when `prev`
/// is not positive.
pub open spec fn step_return(prev: Decimal, cur: Decimal) -> Decimal {
    if prev.units() > 0 {
        cur.spec_difference(prev).spec_quotient_or_zero(prev)
    } else {
        Decimal::spec_zero()
    }
}

/// The relative changes between consecutive values.
pub open spec fn spec_returns(vs: Seq<Decimal>) -> Seq<Decimal> {
    if vs.len() < 2 {
        Seq::empty()
    } else {
        Seq::new((vs.len() - 1) as nat, |i: int| step_return(vs[i], vs[i + 1]))
    }
}

/// The values added up in order from zero.
pub open spec fn total_of(xs: Seq<Decimal>) -> Decimal
    decreases xs.len(),
{
    if xs.len() == 0 {
        Decimal::spec_zero()
    } else {
        total_of(xs.drop_last()).spec_sum(xs.last())
    }
}

/// The arithmetic mean, zero for no values.
pub open spec fn spec_mean(xs: Seq<Decimal>) -> Decimal {
    if xs.len() == 0 {
        Decimal::spec_zero()
    } else {
        total_of(xs).spec_quotient_or_zero(lit(xs.len() as int, 0))
    }
}

/// The squared deviations from `m`, added up in order from zero.
pub open spec fn squared_deviations(xs: Seq<Decimal>, m: Decimal) -> Decimal
    decreases xs.len(),
{
    if xs.len() == 0 {
        Decimal::spec_zero()
    } else {
        let d = xs.last().spec_difference(m);
        squared_deviations(xs.drop_last(), m).spec_sum(d.spec_product(d))
    }
}

/// The population variance, zero for no values.
pub open spec fn spec_variance(xs: Seq<Decimal>) -> Decimal {
    if xs.len() == 0 {
        Decimal::spec_zero()
    } else {
        squared_deviations(xs, spec_mean(xs)).spec_quotient_or_zero(lit(xs.len() as int, 0))
    }
}

/// `√252`, the number of trading days in a year under the root.
pub open spec fn sqrt_252() -> Decimal {
    spec_sqrt(lit(252, 0))
}

/// `(mean − risk_free_rate) / stdev × √252`, zero for an empty series or a zero
/// standard deviation.
pub open spec fn spec_sharpe(series: Seq<Decimal>, risk_free_rate: Decimal) -> Decimal {
    let std_dev = spec_sqrt(spec_variance(series));
    if series.len() == 0 || std_dev.units() <= 0 {
        Decimal::spec_zero()
    } else {
        spec_mean(series).spec_difference(risk_free_rate).spec_quotient_or_zero(
            std_dev,
        ).spec_product(sqrt_252())
    }
}

/// `stdev × √252 × 100`, the annualised volatility in percent; zero for no
/// series.
pub open spec fn spec_volatility(series: Seq<Decimal>) -> Decimal {
    if series.len() == 0 {
        Decimal::spec_zero()
    } else {
        spec_sqrt(spec_variance(series)).spec_product(sqrt_252()).spec_product(lit(100, 0))
    }
}

pub open spec fn all_wf(xs: Seq<Decimal>) -> bool {
    forall|i: int| 0 <= i < xs.len() ==> (#[trigger] xs[i]).wf()
}

/// The relative changes between consecutive values.
pub fn returns_of(values: &Vec<Decimal>) -> (r: Vec<Decimal>)
    requires
        all_wf(values@),
    ensures
        r@ == spec_returns(values@),
        all_wf(r@),
{
    let mut out: Vec<Decimal> = Vec::new();
    if values.len() < 2 {
        proof {
            assert(out@ =~= spec_returns(values@));
        }
        return out;
    }
    let mut i: usize = 1;
    while i < values.len()
        invariant
            all_wf(values@),
            values.len() >= 2,
            1 <= i <= values.len(),
            out.len() == i - 1,
            forall|j: int| 0 <= j < i - 1 ==> out@[j] == step_return(values@[j], values@[j + 1]),
            all_wf(out@),
        decreases values.len() - i,
    {
        let prev = values[i - 1];
        let cur = values[i];
        let r = if prev.gt(&Decimal::zero()) {
            difference(cur, prev).quotient_or_zero(&prev)
        } else {
            Decimal::zero()
        };
        out.push(r);
        i += 1;
    }
    proof {
        assert(out@ =~= spec_returns(values@));
    }
    out
}

/// The values added up in order from zero.
pub fn total(xs: &Vec<Decimal>) -> (r: Decimal)
    requires
        all_wf(xs@),
    ensures
        r == total_of(xs@),
        r.wf(),
{
    let mut acc = Decimal::zero();
    let mut i: usize = 0;
    while i < xs.len()
        invariant
            all_wf(xs@),
            i <= xs.len(),
            acc == total_of(xs@.take(i as int)),
            acc.wf(),
        decreases xs.len() - i,
    {
        proof {
            assert(xs@.take(i as int + 1).drop_last() =~= xs@.take(i as int));
        }
        acc = sum(acc, xs[i]);
        i += 1;
    }
    proof {
        assert(xs@.take(i as int) =~= xs@);
    }
    acc
}

/// The arithmetic mean, zero for no values.
pub fn mean(xs: &Vec<Decimal>) -> (r: Decimal)
    requires
        all_wf(xs@),
    ensures
        r == spec_mean(xs@),
        r.wf(),
{
    if xs.len() == 0 {
        return Decimal::zero();
    }
    total(xs).quotient_or_zero(&Decimal::from_usize(xs.len()))
}

/// The population variance, zero for no values.
pub fn variance(xs: &Vec<Decimal>) -> (r: Decimal)
    requires
        all_wf(xs@),
    ensures
        r == spec_variance(xs@),
        r.wf(),
{
    if xs.len() == 0 {
        return Decimal::zero();
    }
    let m = mean(xs);
    let mut acc = Decimal::zero();
    let mut i: usize = 0;
    while i < xs.len()
        invariant
            all_wf(xs@),
            m == spec_mean(xs@),
            m.wf(),
            i <= xs.len(),
            acc == squared_deviations(xs@.take(i as int), m),
            acc.wf(),
        decreases xs.len() - i,
    {
        proof {
            assert(xs@.take(i as int + 1).drop_last() =~= xs@.take(i as int));
        }
        let d = difference(xs[i], m);
        acc = sum(acc, product(d, d));
        i += 1;
    }
    proof {
        assert(xs@.take(i as int) =~= xs@);
    }
    acc.quotient_or_zero(&Decimal::from_usize(xs.len()))
}

/// The Sharpe ratio of a return series against a risk-free rate, as
/// [`spec_sharpe`] describes it.
pub fn sharpe_of(series: &Vec<Decimal>, risk_free_rate: Decimal) -> (r: Decimal)
    requires
        all_wf(series@),
        risk_free_rate.wf(),
    ensures
        r == spec_sharpe(series@, risk_free_rate),
        r.wf(),
{
    if series.len() == 0 {
        return Decimal::zero();
    }
    let excess = difference(mean(series), risk_free_rate);
    let std_dev = sqrt_floor(variance(series));
    if std_dev.gt(&Decimal::zero()) {
        product(excess.quotient_or_zero(&std_dev), sqrt_floor(Decimal::new(252, 0)))
    } else {
        Decimal::zero()
    }
}

/// The annualised volatility in percent, as [`spec_volatility`] describes it.
pub fn volatility_of(series: &Vec<Decimal>) -> (r: Decimal)
    requires
        all_wf(series@),
    ensures
        r == spec_volatility(series@),
        r.wf(),
{
    if series.len() == 0 {
        return Decimal::zero();
    }
    let std_dev = sqrt_floor(variance(series));
    product(product(std_dev, sqrt_floor(Decimal::new(252, 0))), Decimal::new(100, 0))
}

/// A return series whose variance is zero (as when all its entries are equal) has
/// a Sharpe ratio of zero, whatever the risk-free rate.
pub proof fn lemma_sharpe_zero_variance(series: Seq<Decimal>, risk_free_rate: Decimal)
    requires
        spec_variance(series).units() == 0,
    ensures
        spec_sharpe(series, risk_free_rate) == Decimal::spec_zero(),
{
    let v = spec_variance(series);
    lemma_units_sign(v);
    lemma_units_sign(Decimal::spec_zero());
}

// ---------------------------------------------------------------- drawdown

/// The largest drawdown met while walking `vs`, starting from a running peak
/// `peak` and a largest drawdown so far `max_dd`. At each value the peak
/// rises to the value if it is higher; a value below the peak is a drawdown
/// of `(peak − value) / peak × 100` (zero where that quotient cannot be
/// formed).
pub open spec fn drawdown_from(peak: Decimal, max_dd: Decimal, vs: Seq<Decimal>) -> Decimal
    decreases vs.len(),
{
    if vs.len() == 0 {
        max_dd
    } else {
        let v = vs[0];
        let pk = if v.units() > peak.units() {
            v
        } else {
            peak
        };
        let next = if v.units() < pk.units() {
            let dd = pk.spec_difference(v).spec_quotient_or_zero(pk).spec_product(lit(100, 0));
            if dd.units() > max_dd.units() {
                dd
            } else {
                max_dd
            }
        } else {
            max_dd
        };
        drawdown_from(pk, next, vs.subrange(1, vs.len() as int))
    }
}

/// The maximum drawdown of a value series in percent, the running peak
/// starting at the first value; zero for an empty series.
pub open spec fn spec_max_drawdown(vs: Seq<Decimal>) -> Decimal {
    if vs.len() == 0 {
        Decimal::spec_zero()
    } else {
        drawdown_from(vs[0], Decimal::spec_zero(), vs)
    }
}

/// The maximum drawdown in percent, as [`spec_max_drawdown`] describes it.
pub fn max_drawdown_of(values: &Vec<Decimal>) -> (r: Decimal)
    requires
        all_wf(values@),
    ensures
        r == spec_max_drawdown(values@),
        r.wf(),
{
    if values.len() == 0 {
        return Decimal::zero();
    }
    let hundred = Decimal::new(100, 0);
    let mut peak = values[0];
    let mut max_dd = Decimal::zero();
    let mut i: usize = 0;
    proof {
        assert(values@.subrange(0, values.len() as int) =~= values@);
    }
    while i < values.len()
        invariant
            all_wf(values@),
            values.len() > 0,
            i <= values.len(),
            hundred == lit(100, 0),
            peak.wf(),
            max_dd.wf(),
            drawdown_from(peak, max_dd, values@.subrange(i as int, values.len() as int))
                == spec_max_drawdown(values@),
        decreases values.len() - i,
    {
        let ghost rest = values@.subrange(i as int, values.len() as int);
        proof {
            assert(rest[0] == values@[i as int]);
            assert(rest.subrange(1, rest.len() as int) =~= values@.subrange(
                i as int + 1,
                values.len() as int,
            ));
        }
        let v = values[i];
        if v.gt(&peak) {
            peak = v;
        }
        if v.lt(&peak) {
            let dd = product(difference(peak, v).quotient_or_zero(&peak), hundred);
            if dd.gt(&max_dd) {
                max_dd = dd;
            }
        }
        i += 1;
    }
    proof {
        assert(values@.subrange(values.len() as int, values.len() as int).len() == 0);
    }
    max_dd
}

/// The values never fall from one to the next.
pub open spec fn non_decreasing(vs: Seq<Decimal>) -> bool {
    forall|i: int| 0 <= i < vs.len() - 1 ==> (#[trigger] vs[i]).units() <= vs[i + 1].units()
}

proof fn lemma_drawdown_bounds(peak: Decimal, max_dd: Decimal, vs: Seq<Decimal>)
    requires
        max_dd.units() >= 0,
    ensures
        drawdown_from(peak, max_dd, vs).units() >= 0,
        non_decreasing(vs) && (vs.len() > 0 ==> peak.units() <= vs[0].units())
            ==> drawdown_from(peak, max_dd, vs) == max_dd,
    decreases vs.len(),
{
    if vs.len() > 0 {
        let v = vs[0];
        let pk = if v.units() > peak.units() {
            v
        } else {
            peak
        };
        let next = if v.units() < pk.units() {
            let dd = pk.spec_difference(v).spec_quotient_or_zero(pk).spec_product(lit(100, 0));
            if dd.units() > max_dd.units() {
                dd
            } else {
                max_dd
            }
        } else {
            max_dd
        };
        let rest = vs.subrange(1, vs.len() as int);
        lemma_drawdown_bounds(pk, next, rest);
        if non_decreasing(vs) && peak.units() <= vs[0].units() {
            assert forall|i: int| 0 <= i < rest.len() - 1 implies (#[trigger] rest[i]).units()
                <= rest[i + 1].units() by {
                assert(rest[i] == vs[i + 1]);
                assert(rest[i + 1] == vs[i + 2]);
            }
            if rest.len() > 0 {
                assert(rest[0] == vs[1]);
                assert(vs[0].units() <= vs[1].units());
            }
        }
    }
}

/// The maximum drawdown is never negative, and it is exactly zero for a
/// series that never falls from one value to the next.
pub proof fn lemma_max_drawdown_bounds(vs: Seq<Decimal>)
    ensures
        spec_max_drawdown(vs).units() >= 0,
        non_decreasing(vs) ==> spec_max_drawdown(vs) == Decimal::spec_zero(),
{
    lemma_units_sign(Decimal::spec_zero());
    if vs.len() > 0 {
        lemma_drawdown_bounds(vs[0], Decimal::spec_zero(), vs);
    }
}

// ---------------------------------------------------------------- sorting

/// `t` with `x` put after every entry not greater than it, scanning from
/// the end; on a sorted `t` this keeps equal values in arrival order.
pub open spec fn insert_sorted(t: Seq<Decimal>, x: Decimal) -> Seq<Decimal>
    decreases t.len(),
{
    if t.len() == 0 {
        seq![x]
    } else if t.last().units() <= x.units() {
        t.push(x)
    } else {
        insert_sorted(t.drop_last(), x).push(t.last())
    }
}

/// The values in ascending order (a stable insertion sort).
pub open spec fn sorted_of(s: Seq<Decimal>) -> Seq<Decimal>
    decreases s.len(),
{
    if s.len() == 0 {
        s
    } else {
        insert_sorted(sorted_of(s.drop_last()), s.last())
    }
}

pub open spec fn is_sorted(s: Seq<Decimal>) -> bool {
    forall|i: int, j: int| 0 <= i <= j < s.len() ==> (#[trigger] s[i]).units() <= (#[trigger] s[j]).units()
}

proof fn lemma_insert_split(t: Seq<Decimal>, x: Decimal, p: int)
    requires
        0 <= p <= t.len(),
        forall|k: int| p <= k < t.len() ==> (#[trigger] t[k]).units() > x.units(),
    ensures
        insert_sorted(t, x) == insert_sorted(t.take(p), x) + t.skip(p),
    decreases t.len() - p,
{
    if p == t.len() {
        assert(t.take(p) =~= t);
        assert(t.skip(p) =~= Seq::<Decimal>::empty());
        assert(insert_sorted(t, x) + Seq::<Decimal>::empty() =~= insert_sorted(t, x));
    } else {
        let d = t.drop_last();
        lemma_insert_split(d, x, p);
        assert(d.take(p) =~= t.take(p));
        assert(insert_sorted(t, x) == insert_sorted(d, x).push(t.last()));
        assert((insert_sorted(t.take(p), x) + d.skip(p)).push(t.last()) =~= insert_sorted(
            t.take(p),
            x,
        ) + t.skip(p));
    }
}

proof fn lemma_insert_sorted_keeps_order(t: Seq<Decimal>, x: Decimal)
    requires
        is_sorted(t),
    ensures
        is_sorted(insert_sorted(t, x)),
        insert_sorted(t, x).len() == t.len() + 1,
        forall|i: int|
            0 <= i < insert_sorted(t, x).len() ==> (#[trigger] insert_sorted(t, x)[i] == x || exists|
                k: int,
            | 0 <= k < t.len() && insert_sorted(t, x)[i] == t[k]),
    decreases t.len(),
{
    if t.len() > 0 && t.last().units() > x.units() {
        let d = t.drop_last();
        lemma_insert_sorted_keeps_order(d, x);
        let u = insert_sorted(d, x);
        let w = u.push(t.last());
        assert forall|i: int| 0 <= i < w.len() implies (#[trigger] w[i] == x || exists|k: int|
            0 <= k < t.len() && w[i] == t[k]) by {
            if i < u.len() {
                if u[i] != x {
                    let k = choose|k: int| 0 <= k < d.len() && u[i] == d[k];
                    assert(w[i] == t[k]);
                }
            } else {
                assert(w[i] == t[t.len() - 1]);
            }
        }
        assert forall|i: int, j: int| 0 <= i <= j < w.len() implies (#[trigger] w[i]).units()
            <= (#[trigger] w[j]).units() by {
            if j == w.len() - 1 && i < j {
                if u[i] == x {
                } else {
                    let k = choose|k: int| 0 <= k < d.len() && u[i] == d[k];
                    assert(t[k] == d[k]);
                }
            }
        }
    } else if t.len() > 0 {
        let w = t.push(x);
        assert forall|i: int| 0 <= i < w.len() implies (#[trigger] w[i] == x || exists|k: int|
            0 <= k < t.len() && w[i] == t[k]) by {
            if i < t.len() {
                assert(w[i] == t[i]);
            }
        }
    } else {
        assert(insert_sorted(t, x) =~= seq![x]);
    }
}

/// `sorted_of` sorts.
pub proof fn lemma_sorted_of_sorted(s: Seq<Decimal>)
    ensures
        is_sorted(sorted_of(s)),
        sorted_of(s).len() == s.len(),
    decreases s.len(),
{
    if s.len() > 0 {
        lemma_sorted_of_sorted(s.drop_last());
        lemma_insert_sorted_keeps_order(sorted_of(s.drop_last()), s.last());
    }
}

/// The values in ascending order, equal values kept in the order given.
pub fn sort_values(xs: &Vec<Decimal>) -> (r: Vec<Decimal>)
    requires
        all_wf(xs@),
    ensures
        r@ == sorted_of(xs@),
        all_wf(r@),
{
    let mut out: Vec<Decimal> = Vec::new();
    let mut i: usize = 0;
    while i < xs.len()
        invariant
            all_wf(xs@),
            i <= xs.len(),
            out@ == sorted_of(xs@.take(i as int)),
            all_wf(out@),
        decreases xs.len() - i,
    {
        let x = xs[i];
        let ghost t = out@;
        let mut p: usize = out.len();
        while p > 0 && out[p - 1].gt(&x)
            invariant
                all_wf(out@),
                x.wf(),
                out@ == t,
                p <= t.len(),
                forall|k: int| p <= k < t.len() ==> (#[trigger] t[k]).units() > x.units(),
            decreases p,
        {
            p = p - 1;
        }
        proof {
            lemma_insert_split(t, x, p as int);
            if p > 0 {
                assert(t.take(p as int).last() == t[p - 1]);
                assert(t.take(p as int).drop_last().len() == p - 1);
            } else {
                assert(t.take(0) =~= Seq::<Decimal>::empty());
            }
            assert(insert_sorted(t.take(p as int), x) =~= t.take(p as int).push(x));
            assert(xs@.take(i as int + 1).drop_last() =~= xs@.take(i as int));
        }
        out.insert(p, x);
        proof {
            assert(out@ =~= t.take(p as int).push(x) + t.skip(p as int));
        }
        i += 1;
    }
    proof {
        assert(xs@.take(i as int) =~= xs@);
    }
    out
}

// ---------------------------------------------------------------- value at risk

proof fn lemma_pow10_monotone(j: nat, k: nat)
    requires
        j <= k,
    ensures
        pow10(j) <= pow10(k),
    decreases k,
{
    if j < k {
        lemma_pow10_monotone(j, (k - 1) as nat);
        lemma_pow10_positive((k - 1) as nat);
    }
}

/// `10^k` for `k` up to 28.
fn pow10_exec(k: u32) -> (r: i128)
    requires
        k <= 28,
    ensures
        r == pow10(k as nat),
        0 < r <= 10000000000000000000000000000,
{
    proof {
        reveal_with_fuel(pow10, 29);
        assert(pow10(28) == 10000000000000000000000000000);
    }
    let mut p: i128 = 1;
    let mut i: u32 = 0;
    while i < k
        invariant
            i <= k <= 28,
            p == pow10(i as nat),
            pow10(28) == 10000000000000000000000000000,
        decreases k - i,
    {
        proof {
            lemma_pow10_monotone((i + 1) as nat, 28);
            assert(pow10((i + 1) as nat) == 10 * pow10(i as nat));
            assert(pow10((i + 1) as nat) <= pow10(28));
            assert(p * 10 <= 10000000000000000000000000000);
            lemma_pow10_positive(i as nat);
        }
        p = p * 10;
        i = i + 1;
    }
    proof {
        lemma_pow10_positive(k as nat);
        lemma_pow10_monotone(k as nat, 28);
    }
    p
}

/// The index `floor((1 − confidence) × n)` of the value at risk in a sorted
/// series of length `n`, computed exactly and kept within `[0, n]`.
pub open spec fn spec_tail_index(n: int, confidence: Decimal) -> int {
    let p = pow10(confidence.scale as nat);
    let a = p - confidence.mantissa;
    if a <= 0 {
        0
    } else if a >= p {
        n
    } else {
        a * n / p
    }
}

/// The tail index for a series of length `n` at `confidence`, as
/// [`spec_tail_index`] describes it.
pub fn tail_index(n: usize, confidence: Decimal) -> (r: usize)
    requires
        confidence.wf(),
    ensures
        r == spec_tail_index(n as int, confidence),
        r <= n,
{
    let p = pow10_exec(confidence.scale);
    let a = p - confidence.mantissa;
    if a <= 0 {
        return 0;
    }
    if a >= p {
        return n;
    }
    let a: u128 = a as u128;
    let p: u128 = p as u128;
    let wide: u128 = n as u128;
    let shift: u128 = 0x1_0000_0000;
    let nh = wide / shift;
    let nl = wide % shift;
    assert(nh < shift && nl < shift) by (nonlinear_arith)
        requires
            nh == wide / shift,
            nl == wide % shift,
            wide < 0x1_0000_0000_0000_0000,
            shift == 0x1_0000_0000,
    ;
    assert(a * nh < 0x4000_0000_0000_0000_0000_0000_0000_0000) by (nonlinear_arith)
        requires
            a < 0x4000_0000_0000_0000_0000_0000,
            nh < 0x1_0000_0000,
    ;
    let x = a * nh;
    let xq = x / p;
    let xr = x % p;
    assert(xr * shift < 0x4000_0000_0000_0000_0000_0000_0000_0000 && a * nl
        < 0x4000_0000_0000_0000_0000_0000_0000_0000) by (nonlinear_arith)
        requires
            xr < p,
            p <= 10000000000000000000000000000,
            a < 0x4000_0000_0000_0000_0000_0000,
            nl < 0x1_0000_0000,
            shift == 0x1_0000_0000,
    ;
    let y = xr * shift + a * nl;
    assert(xq <= nh) by (nonlinear_arith)
        requires
            xq == x / p,
            x == a * nh,
            a < p,
            p > 0,
    ;
    assert(xq * shift <= wide) by (nonlinear_arith)
        requires
            xq <= nh,
            nh == wide / shift,
            shift == 0x1_0000_0000,
    ;
    proof {
        let ai = a as int;
        let ni = wide as int;
        let pi = p as int;
        assert(ni == nh * shift + nl) by (nonlinear_arith)
            requires
                nh == wide / shift,
                nl == wide % shift,
                ni == wide,
                shift > 0,
        ;
        assert(x == xq * p + xr) by (nonlinear_arith)
            requires
                xq == x / p,
                xr == x % p,
                p > 0,
        ;
        assert(ai * ni == (xq * shift) * pi + y) by (nonlinear_arith)
            requires
                ni == nh * shift + nl,
                x == ai * nh,
                x == xq * pi + xr,
                y == xr * shift + ai * nl,
        ;
        lemma_hoist_over_denominator(y as int, (xq * shift) as int, p as nat);
        assert(ai * ni / pi <= ni) by (nonlinear_arith)
            requires
                0 < ai < pi,
                ni >= 0,
        ;
    }
    let r = xq * shift + y / p;
    r as usize
}

/// Historical-simulation value at risk: the sorted series' entry at the tail
/// index, in absolute value, times `current_value`; zero for an empty series
/// (and an entry past the end counts as zero).
pub open spec fn spec_historical_var(series: Seq<Decimal>, confidence: Decimal, current_value: Decimal) -> Decimal {
    if series.len() == 0 {
        Decimal::spec_zero()
    } else {
        let sorted = sorted_of(series);
        let idx = spec_tail_index(series.len() as int, confidence);
        let x = if idx < sorted.len() {
            sorted[idx]
        } else {
            Decimal::spec_zero()
        };
        current_value.spec_product(x.spec_abs())
    }
}

/// Historical conditional value at risk: the mean of the sorted entries
/// strictly below the tail index, in absolute value, times `current_value`;
/// zero when there are none.
pub open spec fn spec_historical_cvar(series: Seq<Decimal>, confidence: Decimal, current_value: Decimal) -> Decimal {
    let idx = spec_tail_index(series.len() as int, confidence);
    let tail = sorted_of(series).take(if idx < series.len() { idx } else { series.len() as int });
    if tail.len() == 0 {
        Decimal::spec_zero()
    } else {
        current_value.spec_product(spec_mean(tail).spec_abs())
    }
}

/// At 95% confidence over five returns the tail index is
/// `floor(0.05 × 5) = 0`, so the value at risk is the current value times the
/// magnitude of the lowest return.
pub proof fn lemma_var_95_of_five(series: Seq<Decimal>, current_value: Decimal)
    requires
        series.len() == 5,
    ensures
        spec_tail_index(5, lit(95, 2)) == 0,
        spec_historical_var(series, lit(95, 2), current_value) == current_value.spec_product(
            sorted_of(series)[0].spec_abs(),
        ),
        forall|i: int| 0 <= i < 5 ==> sorted_of(series)[0].units() <= (#[trigger] sorted_of(series)[i]).units(),
{
    reveal_with_fuel(pow10, 3);
    assert(pow10(2) == 100);
    lemma_sorted_of_sorted(series);
}

/// The first `k` entries of `xs`.
pub fn prefix(xs: &Vec<Decimal>, k: usize) -> (r: Vec<Decimal>)
    requires
        k <= xs.len(),
        all_wf(xs@),
    ensures
        r@ == xs@.take(k as int),
        all_wf(r@),
{
    let mut out: Vec<Decimal> = Vec::new();
    let mut i: usize = 0;
    while i < k
        invariant
            k <= xs.len(),
            all_wf(xs@),
            i <= k,
            out@ == xs@.take(i as int),
        decreases k - i,
    {
        out.push(xs[i]);
        i += 1;
        proof {
            assert(out@ =~= xs@.take(i as int));
        }
    }
    out
}

/// Historical value at risk, as [`spec_historical_var`] describes it.
pub fn historical_var(series: &Vec<Decimal>, confidence: Decimal, current_value: Decimal) -> (r: Decimal)
    requires
        all_wf(series@),
        confidence.wf(),
        current_value.wf(),
    ensures
        r == spec_historical_var(series@, confidence, current_value),
        r.wf(),
{
    if series.len() == 0 {
        return Decimal::zero();
    }
    let sorted = sort_values(series);
    proof {
        lemma_sorted_of_sorted(series@);
    }
    let idx = tail_index(series.len(), confidence);
    let x = if idx < sorted.len() {
        sorted[idx]
    } else {
        Decimal::zero()
    };
    product(current_value, x.abs())
}

/// Historical conditional value at risk, as [`spec_historical_cvar`]
/// describes it.
pub fn historical_cvar(series: &Vec<Decimal>, confidence: Decimal, current_value: Decimal) -> (r: Decimal)
    requires
        all_wf(series@),
        confidence.wf(),
        current_value.wf(),
    ensures
        r == spec_historical_cvar(series@, confidence, current_value),
        r.wf(),
{
    let sorted = sort_values(series);
    proof {
        lemma_sorted_of_sorted(series@);
    }
    let idx = tail_index(series.len(), confidence);
    let k = if idx < series.len() {
        idx
    } else {
        series.len()
    };
    let tail = prefix(&sorted, k);
    if tail.len() == 0 {
        return Decimal::zero();
    }
    product(current_value, mean(&tail).abs())
}

/// The values recorded in a history.
pub open spec fn history_values(h: Seq<PortfolioSnapshot>) -> Seq<Decimal> {
    h.map_values(|s: PortfolioSnapshot| s.total_value)
}

/// The total values recorded in a history.
pub fn values_of(history: &Vec<PortfolioSnapshot>) -> (r: Vec<Decimal>)
    requires
        forall|i: int| 0 <= i < history.len() ==> (#[trigger] history@[i]).total_value.wf(),
    ensures
        r@ == history_values(history@),
        all_wf(r@),
{
    let mut out: Vec<Decimal> = Vec::new();
    let mut i: usize = 0;
    while i < history.len()
        invariant
            forall|i: int| 0 <= i < history.len() ==> (#[trigger] history@[i]).total_value.wf(),
            i <= history.len(),
            out@ == history_values(history@).take(i as int),
            all_wf(out@),
        decreases history.len() - i,
    {
        out.push(history[i].total_value);
        i += 1;
        proof {
            assert(out@ =~= history_values(history@).take(i as int));
        }
    }
    proof {
        assert(history_values(history@).take(i as int) =~= history_values(history@));
    }
    out
}

/// Portfolio-level risk figures.
pub struct RiskCalculator;

impl RiskCalculator {
    /// A coarse parametric value at risk: 5% of the total value, scaled by
    /// `√(time_horizon_days / 252)`. The confidence level does not enter.
    pub open spec fn spec_value_at_risk(p: PortfolioView, time_horizon_days: int) -> Decimal {
        let time_factor = spec_sqrt(lit(time_horizon_days, 0).spec_quotient_or_zero(lit(252, 0)));
        p.total_value.spec_product(lit(5, 2)).spec_product(time_factor)
    }

    pub fn value_at_risk(portfolio: &Portfolio, confidence: Decimal, time_horizon_days: usize) -> (r: Decimal)
        requires
            portfolio@.wf(),
        ensures
            r == Self::spec_value_at_risk(portfolio@, time_horizon_days as int),
            r.wf(),
    {
        let portfolio_risk = product(portfolio.total_value, Decimal::new(5, 2));
        let years = Decimal::from_usize(time_horizon_days).quotient_or_zero(&Decimal::new(252, 0));
        product(portfolio_risk, sqrt_floor(years))
    }

    /// The parametric conditional value at risk: 1.3 times the value at risk.
    pub fn conditional_var(portfolio: &Portfolio, confidence: Decimal, time_horizon_days: usize) -> (r: Decimal)
        requires
            portfolio@.wf(),
        ensures
            r == Self::spec_value_at_risk(portfolio@, time_horizon_days as int).spec_product(lit(13, 1)),
            r.wf(),
    {
        let var = Self::value_at_risk(portfolio, confidence, time_horizon_days);
        product(var, Decimal::new(13, 1))
    }

    /// The maximum drawdown of a history's total values in percent; zero for
    /// fewer than two snapshots.
    pub fn max_drawdown(history: &Vec<PortfolioSnapshot>) -> (r: Decimal)
        requires
            forall|i: int| 0 <= i < history.len() ==> (#[trigger] history@[i]).total_value.wf(),
        ensures
            r == (if history.len() < 2 {
                Decimal::spec_zero()
            } else {
                spec_max_drawdown(history_values(history@))
            }),
            r.wf(),
    {
        if history.len() < 2 {
            return Decimal::zero();
        }
        max_drawdown_of(&values_of(history))
    }

    /// The annualised Sharpe ratio of a return series.
    pub fn sharpe_ratio(series: &Vec<Decimal>, risk_free_rate: Decimal) -> (r: Decimal)
        requires
            all_wf(series@),
            risk_free_rate.wf(),
        ensures
            r == spec_sharpe(series@, risk_free_rate),
            r.wf(),
    {
        sharpe_of(series, risk_free_rate)
    }
}

} // verus!
