use vstd::prelude::*;

use crate::holding::{class_of, return_pct, value_of, volatility_pct, Holding};
use crate::risk::{
    cash_figure, diversification_figure, drawdown_figure, sharpe_figure, top_holding_figure,
    top_value, total, total_value_figure, volatility_figure, volatility_total,
};
use crate::rounding::{abs, round_div};

verus! {

/// Sum of a sequence of integers.
pub open spec fn seq_sum(s: Seq<int>) -> int
    decreases s.len(),
{
    if s.len() == 0 {
        0
    } else {
        seq_sum(s.drop_last()) + s.last()
    }
}

/// The weights `value_of(h) / total(hs)` of a portfolio with a nonzero total
/// sum to one: their numerators add up to the common denominator.
pub proof fn lemma_weights_sum_to_one(hs: Seq<Holding>)
    requires
        total(hs) != 0,
    ensures
        seq_sum(hs.map_values(|h: Holding| value_of(h))) == total(hs),
{
    lemma_value_sum(hs);
}

proof fn lemma_value_sum(hs: Seq<Holding>)
    ensures
        seq_sum(hs.map_values(|h: Holding| value_of(h))) == total(hs),
    decreases hs.len(),
{
    if hs.len() > 0 {
        lemma_value_sum(hs.drop_last());
        assert(hs.map_values(|h: Holding| value_of(h)).drop_last() =~= hs.drop_last().map_values(
            |h: Holding| value_of(h),
        ));
    }
}

/// A rounded figure is the integer nearest to the exact quotient: it lies
/// within half a unit of `n / d`.
pub proof fn lemma_rounding_is_nearest(n: int, d: int)
    requires
        d != 0,
    ensures
        -abs(d) <= 2 * (n - round_div(n, d) * d) <= abs(d),
{
    let an = abs(n);
    let ad = abs(d);
    let q = (2 * an + ad) / (2 * ad);
    assert(-ad <= 2 * (an - q * ad) <= ad) by (nonlinear_arith)
        requires
            ad > 0,
            q == (2 * an + ad) / (2 * ad),
    ;
    if n >= 0 && d > 0 {
        assert(round_div(n, d) == q);
    } else if n >= 0 && d < 0 {
        assert(round_div(n, d) == -q);
        assert(-q * d == q * ad) by (nonlinear_arith)
            requires
                ad == -d,
        ;
    } else if n < 0 && d > 0 {
        assert(round_div(n, d) == -q);
        assert(-q * d == -(q * ad)) by (nonlinear_arith)
            requires
                ad == d,
        ;
    } else {
        assert(round_div(n, d) == q);
        assert(q * d == -(q * ad)) by (nonlinear_arith)
            requires
                ad == -d,
        ;
    }
}

proof fn lemma_round_exact(m: int, d: int)
    requires
        d != 0,
    ensures
        round_div(m * d, d) == m,
{
    lemma_rounding_is_nearest(m * d, d);
    let r = round_div(m * d, d);
    assert(r == m) by (nonlinear_arith)
        requires
            d != 0,
            -abs(d) <= 2 * (m * d - r * d) <= abs(d),
            abs(d) == if d < 0 { -d } else { d },
    ;
}

/// Once the drawdown estimate and the volatility are rounded to hundredths,
/// twice the drawdown is within three hundredths of five times the volatility.
pub proof fn lemma_drawdown_tracks_volatility(hs: Seq<Holding>)
    ensures
        -3 <= 2 * drawdown_figure(hs) - 5 * volatility_figure(hs) <= 3,
{
    let t = total(hs);
    if t != 0 {
        let v = volatility_total(hs);
        let a = volatility_figure(hs);
        let b = drawdown_figure(hs);
        lemma_rounding_is_nearest(100 * v, t);
        lemma_rounding_is_nearest(250 * v, t);
        assert(-3 <= 2 * b - 5 * a <= 3) by (nonlinear_arith)
            requires
                t != 0,
                -abs(t) <= 2 * (100 * v - a * t) <= abs(t),
                -abs(t) <= 2 * (250 * v - b * t) <= abs(t),
                abs(t) == if t < 0 { -t } else { t },
        ;
    }
}

/// Where the volatility in hundredths of a percent is an even whole number
/// before rounding, the rounded drawdown is exactly 2.5 times the rounded
/// volatility.
pub proof fn lemma_drawdown_exact(hs: Seq<Holding>)
    requires
        total(hs) != 0,
        (100 * volatility_total(hs)) % (2 * total(hs)) == 0,
    ensures
        2 * drawdown_figure(hs) == 5 * volatility_figure(hs),
{
    let t = total(hs);
    let v = volatility_total(hs);
    let k = (100 * v) / (2 * t);
    assert(100 * v == 2 * k * t) by (nonlinear_arith)
        requires
            t != 0,
            k == (100 * v) / (2 * t),
            (100 * v) % (2 * t) == 0,
    ;
    assert(100 * v == (2 * k) * t) by (nonlinear_arith)
        requires
            100 * v == 2 * k * t,
    ;
    assert(250 * v == (5 * k) * t) by (nonlinear_arith)
        requires
            100 * v == 2 * k * t,
    ;
    lemma_round_exact(2 * k, t);
    lemma_round_exact(5 * k, t);
}

/// A portfolio whose values sum to zero, the empty one included, has every
/// figure zero.
pub proof fn lemma_zero_total_reports_zero(hs: Seq<Holding>)
    requires
        total(hs) == 0,
    ensures
        total_value_figure(hs) == 0,
        volatility_figure(hs) == 0,
        drawdown_figure(hs) == 0,
        sharpe_figure(hs) == 0,
        cash_figure(hs) == 0,
        top_holding_figure(hs) == 0,
        diversification_figure(hs) == 0,
{
    assert((2 * abs(0) + abs(10_000)) / (2 * abs(10_000)) == 0) by (nonlinear_arith);
}

/// A category that the tables do not name has volatility 15% and return 7%.
pub proof fn lemma_unknown_class_defaults(name: Seq<char>)
    requires
        name != "cash"@,
        name != "bond"@,
        name != "equity"@,
        name != "crypto"@,
        name != "commodity"@,
        name != "real_estate"@,
    ensures
        volatility_pct(class_of(name)) == 15,
        return_pct(class_of(name)) == 7,
{
}

/// The top holding's value belongs to a holding, and no holding has a larger
/// weight `value_of(h) / t`.
pub proof fn lemma_top_is_largest_weight(hs: Seq<Holding>, t: int)
    requires
        hs.len() >= 1,
    ensures
        exists|k: int| 0 <= k < hs.len() && top_value(hs, t) == value_of(#[trigger] hs[k]),
        forall|j: int| 0 <= j < hs.len() ==> (top_value(hs, t) - value_of(#[trigger] hs[j])) * t >= 0,
    decreases hs.len(),
{
    let b = top_value(hs, t);
    if hs.len() == 1 {
        assert(b == value_of(hs[0]));
        assert((b - value_of(hs[0])) * t == 0) by (nonlinear_arith)
            requires
                b == value_of(hs[0]),
        ;
    } else {
        let p = hs.drop_last();
        lemma_top_is_largest_weight(p, t);
        let pb = top_value(p, t);
        let v = value_of(hs.last());
        let k0 = choose|k: int| 0 <= k < p.len() && pb == value_of(#[trigger] p[k]);
        assert(p[k0] == hs[k0]);
        if (v - pb) * t > 0 {
            assert(b == v);
            assert(hs.last() == hs[hs.len() - 1]);
            assert forall|j: int| 0 <= j < hs.len() implies (b - value_of(#[trigger] hs[j])) * t >= 0 by {
                if j < hs.len() - 1 {
                    assert(p[j] == hs[j]);
                    let w = value_of(hs[j]);
                    assert((pb - w) * t >= 0);
                    assert((v - w) * t >= 0) by (nonlinear_arith)
                        requires
                            (v - pb) * t > 0,
                            (pb - w) * t >= 0,
                    ;
                } else {
                    assert((v - v) * t == 0) by (nonlinear_arith);
                }
            }
        } else {
            assert(b == pb);
            assert forall|j: int| 0 <= j < hs.len() implies (b - value_of(#[trigger] hs[j])) * t >= 0 by {
                if j < hs.len() - 1 {
                    assert(p[j] == hs[j]);
                } else {
                    assert(hs[j] == hs.last());
                    assert((pb - v) * t >= 0) by (nonlinear_arith)
                        requires
                            !((v - pb) * t > 0),
                    ;
                }
            }
        }
    }
}

} // verus!
