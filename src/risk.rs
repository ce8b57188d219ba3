use vstd::prelude::*;

use crate::holding::{value_of, class_of_holding, volatility_pct, return_pct, AssetClass, Holding};
use crate::rounding::{abs, round_div, div_round};

verus! {

/// Largest sum of the holdings' absolute values, in millionths of a currency unit, that the
/// computation takes: ten billion currency units.
pub const VALUE_LIMIT: i128 = 10_000_000_000_000_000;

/// Summary risk figures of a portfolio, each in hundredths of its unit
/// (`1_833` stands for 18.33).
#[derive(Clone, Copy, Debug, PartialEq, Eq, Structural)]
pub struct RiskMetrics {
    /// Total value, in cents.
    pub total_value: i128,
    /// Weighted volatility, in hundredths of a percent.
    pub volatility_30d: i128,
    /// Drawdown estimate (2.5 times the volatility), in hundredths of a percent.
    pub max_drawdown_1y: i128,
    /// Sharpe ratio, in hundredths.
    pub sharpe_ratio: i128,
    /// Share of cash in the total value, in hundredths of a percent.
    pub cash_pct: i128,
    /// Largest weight, in hundredths of a percent.
    pub top_holding_pct: i128,
    /// One minus the sum of squared weights, in hundredths of a percent.
    pub diversification_score: i128,
}

/// Sum of the holdings' values.
pub open spec fn total(hs: Seq<Holding>) -> int
    decreases hs.len(),
{
    if hs.len() == 0 {
        0
    } else {
        total(hs.drop_last()) + value_of(hs.last())
    }
}

/// Sum of the holdings' absolute values.
pub open spec fn abs_total(hs: Seq<Holding>) -> int
    decreases hs.len(),
{
    if hs.len() == 0 {
        0
    } else {
        abs_total(hs.drop_last()) + abs(value_of(hs.last()))
    }
}

/// Sum of each value times its category's volatility in percent.
pub open spec fn volatility_total(hs: Seq<Holding>) -> int
    decreases hs.len(),
{
    if hs.len() == 0 {
        0
    } else {
        volatility_total(hs.drop_last()) + value_of(hs.last()) * volatility_pct(
            class_of_holding(hs.last()),
        )
    }
}

/// Sum of each value times its category's return in percent.
pub open spec fn return_total(hs: Seq<Holding>) -> int
    decreases hs.len(),
{
    if hs.len() == 0 {
        0
    } else {
        return_total(hs.drop_last()) + value_of(hs.last()) * return_pct(
            class_of_holding(hs.last()),
        )
    }
}

/// Sum of the values of the cash holdings.
pub open spec fn cash_total(hs: Seq<Holding>) -> int
    decreases hs.len(),
{
    if hs.len() == 0 {
        0
    } else {
        cash_total(hs.drop_last()) + if class_of_holding(hs.last()) == AssetClass::Cash {
            value_of(hs.last())
        } else {
            0
        }
    }
}

/// Sum of the squared values.
pub open spec fn square_total(hs: Seq<Holding>) -> int
    decreases hs.len(),
{
    if hs.len() == 0 {
        0
    } else {
        square_total(hs.drop_last()) + value_of(hs.last()) * value_of(hs.last())
    }
}

/// The value of a holding with the largest weight `value / t`; of equal
/// ones, the first.
pub open spec fn top_value(hs: Seq<Holding>, t: int) -> int
    decreases hs.len(),
{
    if hs.len() <= 1 {
        if hs.len() == 0 {
            0
        } else {
            value_of(hs[0])
        }
    } else {
        let b = top_value(hs.drop_last(), t);
        let v = value_of(hs.last());
        if (v - b) * t > 0 {
            v
        } else {
            b
        }
    }
}

/// Whether the weighted volatility `volatility_total / (100 * total)` is above zero.
pub open spec fn volatility_positive(hs: Seq<Holding>) -> bool {
    let t = total(hs);
    let v = volatility_total(hs);
    (v > 0 && t > 0) || (v < 0 && t < 0)
}

/// Total value in cents.
pub open spec fn total_value_figure(hs: Seq<Holding>) -> int {
    round_div(total(hs), 10_000)
}

/// Weighted volatility in percent is `volatility_total / total`.
pub open spec fn volatility_figure(hs: Seq<Holding>) -> int {
    if total(hs) == 0 {
        0
    } else {
        round_div(100 * volatility_total(hs), total(hs))
    }
}

/// The drawdown estimate in percent is `2.5 * volatility_total / total`.
pub open spec fn drawdown_figure(hs: Seq<Holding>) -> int {
    if total(hs) == 0 {
        0
    } else {
        round_div(250 * volatility_total(hs), total(hs))
    }
}

/// With the expected return `return_total / (100 * total)` and the risk-free
/// rate 0.04, the Sharpe ratio is `(return_total - 4 * total) / volatility_total`.
pub open spec fn sharpe_figure(hs: Seq<Holding>) -> int {
    if total(hs) == 0 || !volatility_positive(hs) {
        0
    } else {
        round_div(100 * (return_total(hs) - 4 * total(hs)), volatility_total(hs))
    }
}

/// The cash share in percent is `100 * cash_total / total`.
pub open spec fn cash_figure(hs: Seq<Holding>) -> int {
    if total(hs) == 0 {
        0
    } else {
        round_div(10_000 * cash_total(hs), total(hs))
    }
}

/// The largest weight in percent.
pub open spec fn top_holding_figure(hs: Seq<Holding>) -> int {
    if total(hs) == 0 {
        0
    } else {
        round_div(10_000 * top_value(hs, total(hs)), total(hs))
    }
}

/// With the sum of squared weights `square_total / total^2`, the score in
/// percent is `100 * (1 - square_total / total^2)`; zero for fewer than two
/// holdings.
pub open spec fn diversification_figure(hs: Seq<Holding>) -> int {
    let t = total(hs);
    if t == 0 || hs.len() <= 1 {
        0
    } else {
        round_div(10_000 * (t * t - square_total(hs)), t * t)
    }
}

/// Whether the values of `hs` are small enough for the computation.
pub open spec fn within_limits(hs: Seq<Holding>) -> bool {
    abs_total(hs) <= VALUE_LIMIT
}

/// The figures that `calculate_risk` reports for `hs`.
pub open spec fn metrics_match(m: RiskMetrics, hs: Seq<Holding>) -> bool {
    &&& m.total_value == total_value_figure(hs)
    &&& m.volatility_30d == volatility_figure(hs)
    &&& m.max_drawdown_1y == drawdown_figure(hs)
    &&& m.sharpe_ratio == sharpe_figure(hs)
    &&& m.cash_pct == cash_figure(hs)
    &&& m.top_holding_pct == top_holding_figure(hs)
    &&& m.diversification_score == diversification_figure(hs)
}

proof fn lemma_prefix_step(hs: Seq<Holding>, i: int)
    requires
        0 <= i < hs.len(),
    ensures
        hs.subrange(0, i + 1).drop_last() == hs.subrange(0, i),
        hs.subrange(0, i + 1).last() == hs[i],
        hs.subrange(0, i + 1).len() == i + 1,
{
    assert(hs.subrange(0, i + 1).drop_last() =~= hs.subrange(0, i));
}

proof fn lemma_abs_total_prefix(hs: Seq<Holding>, i: int)
    requires
        0 <= i <= hs.len(),
    ensures
        0 <= abs_total(hs.subrange(0, i)) <= abs_total(hs),
    decreases hs.len() - i,
{
    if i == hs.len() {
        assert(hs.subrange(0, i) =~= hs);
        lemma_abs_total_nonneg(hs);
    } else {
        lemma_abs_total_prefix(hs, i + 1);
        lemma_prefix_step(hs, i);
        lemma_abs_total_nonneg(hs.subrange(0, i));
    }
}

proof fn lemma_abs_total_nonneg(hs: Seq<Holding>)
    ensures
        abs_total(hs) >= 0,
    decreases hs.len(),
{
    if hs.len() > 0 {
        lemma_abs_total_nonneg(hs.drop_last());
    }
}

/// Each partial sum grows by at most the new value's magnitude, times its factor.
proof fn lemma_sums_step(a: int, x: int, t: int, v: int, r: int, c: int, q: int, vol: int, ret: int, cash: int)
    requires
        a >= 0,
        -a <= t <= a,
        -80 * a <= v <= 80 * a,
        -15 * a <= r <= 15 * a,
        -a <= c <= a,
        0 <= q <= a * a,
        0 <= vol <= 80,
        0 <= ret <= 15,
        cash == 0 || cash == x,
    ensures
        -(a + abs(x)) <= t + x <= a + abs(x),
        -80 * (a + abs(x)) <= v + x * vol <= 80 * (a + abs(x)),
        -15 * (a + abs(x)) <= r + x * ret <= 15 * (a + abs(x)),
        -(a + abs(x)) <= c + cash <= a + abs(x),
        0 <= q + x * x <= (a + abs(x)) * (a + abs(x)),
{
    let b = abs(x);
    assert(-80 * b <= x * vol <= 80 * b) by (nonlinear_arith)
        requires
            b == abs(x),
            0 <= vol <= 80,
    ;
    assert(-15 * b <= x * ret <= 15 * b) by (nonlinear_arith)
        requires
            b == abs(x),
            0 <= ret <= 15,
    ;
    assert(0 <= q + x * x <= (a + b) * (a + b)) by (nonlinear_arith)
        requires
            b == abs(x),
            a >= 0,
            0 <= q <= a * a,
    ;
}

proof fn lemma_square_bound(t: int, a: int)
    requires
        -a <= t <= a,
    ensures
        0 <= t * t <= a * a,
{
    assert(0 <= t * t <= a * a) by (nonlinear_arith)
        requires
            -a <= t <= a,
    ;
}

proof fn lemma_top_bounded(hs: Seq<Holding>, t: int)
    ensures
        abs(top_value(hs, t)) <= abs_total(hs),
    decreases hs.len(),
{
    if hs.len() == 1 {
        assert(hs.drop_last().len() == 0);
        assert(abs_total(hs.drop_last()) == 0);
        assert(hs.last() == hs[0]);
    } else if hs.len() > 1 {
        lemma_top_bounded(hs.drop_last(), t);
        lemma_abs_total_nonneg(hs.drop_last());
    }
}

/// Whether the values of `holdings` are small enough for `calculate_risk`:
/// the sum of their absolute values is at most `VALUE_LIMIT`.
pub fn holdings_within_limits(holdings: &Vec<Holding>) -> (r: bool)
    ensures
        r == within_limits(holdings@),
{
    let n = holdings.len();
    let mut a: i128 = 0;
    let mut i: usize = 0;
    while i < n
        invariant
            n == holdings@.len(),
            0 <= i <= n,
            a == abs_total(holdings@.subrange(0, i as int)),
            a <= VALUE_LIMIT,
        decreases n - i,
    {
        let x = holdings[i].value();
        proof {
            crate::holding::lemma_value_bounded(holdings@[i as int]);
        }
        let ax: i128 = if x < 0 {
            -x
        } else {
            x
        };
        proof {
            lemma_prefix_step(holdings@, i as int);
            lemma_abs_total_nonneg(holdings@.subrange(0, i as int));
        }
        if ax > VALUE_LIMIT - a {
            proof {
                lemma_abs_total_prefix(holdings@, i + 1);
            }
            return false;
        }
        a = a + ax;
        i = i + 1;
    }
    assert(holdings@.subrange(0, n as int) =~= holdings@);
    true
}

/// The summary risk figures of a portfolio.
///
/// Each holding's value is resolved once; the weights are the values divided
/// by their total. A portfolio whose total is zero, the empty one included,
/// has every figure zero. Every figure is the exact quantity rounded to
/// hundredths, a half away from zero.
pub fn calculate_risk(holdings: &Vec<Holding>) -> (m: RiskMetrics)
    requires
        within_limits(holdings@),
    ensures
        metrics_match(m, holdings@),
{
    let ghost hs = holdings@;
    let n = holdings.len();
    let mut values: Vec<i128> = Vec::new();
    let mut t: i128 = 0;
    let mut v: i128 = 0;
    let mut r: i128 = 0;
    let mut c: i128 = 0;
    let mut q: i128 = 0;
    let mut i: usize = 0;
    while i < n
        invariant
            hs == holdings@,
            n == hs.len(),
            within_limits(hs),
            0 <= i <= n,
            values@.len() == i,
            forall|k: int| 0 <= k < i ==> values@[k] == value_of(#[trigger] hs[k]),
            t == total(hs.subrange(0, i as int)),
            v == volatility_total(hs.subrange(0, i as int)),
            r == return_total(hs.subrange(0, i as int)),
            c == cash_total(hs.subrange(0, i as int)),
            q == square_total(hs.subrange(0, i as int)),
            ({
                let a = abs_total(hs.subrange(0, i as int));
                &&& -a <= t <= a
                &&& -80 * a <= v <= 80 * a
                &&& -15 * a <= r <= 15 * a
                &&& -a <= c <= a
                &&& 0 <= q <= a * a
            }),
        decreases n - i,
    {
        let h = &holdings[i];
        let x = h.value();
        let class = AssetClass::from_name(&h.asset_class);
        let vol = class.volatility();
        let ret = class.expected_return();
        let cash: i128 = if class == AssetClass::Cash {
            x
        } else {
            0
        };
        proof {
            let a = abs_total(hs.subrange(0, i as int));
            lemma_prefix_step(hs, i as int);
            lemma_abs_total_prefix(hs, i + 1);
            lemma_abs_total_nonneg(hs.subrange(0, i as int));
            lemma_sums_step(a, x as int, t as int, v as int, r as int, c as int, q as int, vol as int, ret as int, cash as int);
            lemma_square_bound(a + abs(x as int), VALUE_LIMIT as int);
        }
        t = t + x;
        v = v + x * vol;
        r = r + x * ret;
        c = c + cash;
        q = q + x * x;
        values.push(x);
        i = i + 1;
    }
    assert(hs.subrange(0, n as int) =~= hs);
    if t == 0 {
        assert((2 * abs(0) + abs(10_000)) / (2 * abs(10_000)) == 0) by (nonlinear_arith);
        return RiskMetrics {
            total_value: 0,
            volatility_30d: 0,
            max_drawdown_1y: 0,
            sharpe_ratio: 0,
            cash_pct: 0,
            top_holding_pct: 0,
            diversification_score: 0,
        };
    }
    let total_value = div_round(t, 10_000);
    let volatility_30d = div_round(100 * v, t);
    let max_drawdown_1y = div_round(250 * v, t);
    let sharpe_ratio = if (v > 0 && t > 0) || (v < 0 && t < 0) {
        div_round(100 * (r - 4 * t), v)
    } else {
        0
    };
    let cash_pct = div_round(10_000 * c, t);

    let mut best: i128 = values[0];
    let mut j: usize = 1;
    proof {
        lemma_prefix_step(hs, 0);
    }
    while j < n
        invariant
            hs == holdings@,
            n == hs.len(),
            t == total(hs),
            t != 0,
            values@.len() == n,
            forall|k: int| 0 <= k < n ==> values@[k] == value_of(#[trigger] hs[k]),
            1 <= j <= n,
            best == top_value(hs.subrange(0, j as int), t as int),
        decreases n - j,
    {
        let x = values[j];
        proof {
            lemma_prefix_step(hs, j as int);
            assert(((x - best) * t > 0) == ((t > 0 && x > best) || (t < 0 && x < best))) by (nonlinear_arith)
                requires
                    t != 0,
            ;
        }
        if (t > 0 && x > best) || (t < 0 && x < best) {
            best = x;
        }
        j = j + 1;
    }
    proof {
        assert(hs.subrange(0, n as int) =~= hs);
        lemma_top_bounded(hs, t as int);
    }
    let top_holding_pct = div_round(10_000 * best, t);

    let diversification_score = if n > 1 {
        proof {
            lemma_square_bound(t as int, abs_total(hs));
            lemma_square_bound(abs_total(hs), VALUE_LIMIT as int);
            assert(t * t > 0) by (nonlinear_arith)
                requires
                    t != 0,
            ;
        }
        let tt = t * t;
        div_round(10_000 * (tt - q), tt)
    } else {
        0
    };
    RiskMetrics {
        total_value,
        volatility_30d,
        max_drawdown_1y,
        sharpe_ratio,
        cash_pct,
        top_holding_pct,
        diversification_score,
    }
}

} // verus!
