use risk_engine::holding::{AssetClass, Holding};
use risk_engine::risk::{calculate_risk, holdings_within_limits, RiskMetrics, VALUE_LIMIT};
use risk_engine::rounding::div_round;

fn valued(class: &str, cents: i64) -> Holding {
    Holding {
        ticker: "T".to_string(),
        asset_class: class.to_string(),
        quantity: 0,
        avg_cost: 0,
        current_price: None,
        market_value: Some(cents),
    }
}

fn bought(class: &str, quantity: i64, avg_cost: i64) -> Holding {
    Holding {
        ticker: "T".to_string(),
        asset_class: class.to_string(),
        quantity,
        avg_cost,
        current_price: None,
        market_value: None,
    }
}

fn zero_metrics() -> RiskMetrics {
    RiskMetrics {
        total_value: 0,
        volatility_30d: 0,
        max_drawdown_1y: 0,
        sharpe_ratio: 0,
        cash_pct: 0,
        top_holding_pct: 0,
        diversification_score: 0,
    }
}

#[test]
fn empty_portfolio_reports_zero() {
    let m = calculate_risk(&Vec::new());
    assert_eq!(m, zero_metrics());
}

#[test]
fn single_equity_holding() {
    let m = calculate_risk(&vec![valued("equity", 100_000)]);
    assert_eq!(m.total_value, 100_000);
    assert_eq!(m.volatility_30d, 1_800);
    assert_eq!(m.max_drawdown_1y, 4_500);
    // (0.10 - 0.04) / 0.18 = 0.333..., a ratio rounded to 0.33
    assert_eq!(m.sharpe_ratio, 33);
    assert_eq!(m.cash_pct, 0);
    assert_eq!(m.top_holding_pct, 10_000);
    assert_eq!(m.diversification_score, 0);
}

#[test]
fn cash_and_equity_halves() {
    let m = calculate_risk(&vec![valued("cash", 50_000), valued("equity", 50_000)]);
    assert_eq!(m.total_value, 100_000);
    assert_eq!(m.cash_pct, 5_000);
    assert_eq!(m.top_holding_pct, 5_000);
    assert_eq!(m.diversification_score, 5_000);
    // (0.5 * 0.01 + 0.5 * 0.18) * 100 = 9.5
    assert_eq!(m.volatility_30d, 950);
    assert_eq!(m.max_drawdown_1y, 2_375);
    // (0.07 - 0.04) / 0.095 = 0.3157...
    assert_eq!(m.sharpe_ratio, 32);
}

#[test]
fn weights_of_three_holdings() {
    let m = calculate_risk(&vec![
        valued("bond", 20_000),
        valued("equity", 30_000),
        valued("crypto", 50_000),
    ]);
    // weights 0.2, 0.3, 0.5 sum to one: 1 - (0.04 + 0.09 + 0.25) = 0.62
    assert_eq!(m.diversification_score, 6_200);
    assert_eq!(m.top_holding_pct, 5_000);
    // 0.2 * 5 + 0.3 * 18 + 0.5 * 80 = 46.4
    assert_eq!(m.volatility_30d, 4_640);
    assert_eq!(m.max_drawdown_1y, 11_600);
}

#[test]
fn drawdown_is_two_and_a_half_volatilities() {
    let m = calculate_risk(&vec![valued("commodity", 70_000), valued("bond", 30_000)]);
    // 0.7 * 25 + 0.3 * 5 = 19
    assert_eq!(m.volatility_30d, 1_900);
    assert_eq!(m.max_drawdown_1y, 4_750);
    assert_eq!(2 * m.max_drawdown_1y, 5 * m.volatility_30d);
}

#[test]
fn drawdown_and_volatility_rounded_apart() {
    let m = calculate_risk(&vec![valued("equity", 10_000), valued("cash", 20_000)]);
    // volatility (18 + 2 * 1) / 3 = 6.666..., drawdown 16.666...
    assert_eq!(m.volatility_30d, 667);
    assert_eq!(m.max_drawdown_1y, 1_667);
    assert!((2 * m.max_drawdown_1y - 5 * m.volatility_30d).abs() <= 3);
}

#[test]
fn cancelling_positions_report_zero() {
    let m = calculate_risk(&vec![valued("equity", 50_000), valued("bond", -50_000)]);
    assert_eq!(m, zero_metrics());
}

#[test]
fn fractional_inputs_round_to_hundredths() {
    // 1.2345 units at 33.33: 41.145885
    let m = calculate_risk(&vec![bought("equity", 12_345, 3_333), bought("cash", 10_000, 100)]);
    // total 42.145885
    assert_eq!(m.total_value, 4_215);
    // cash share 1 / 42.145885 = 2.3727...%
    assert_eq!(m.cash_pct, 237);
    // top 41.145885 / 42.145885 = 97.627...%
    assert_eq!(m.top_holding_pct, 9_763);
}

#[test]
fn unknown_class_uses_defaults() {
    let m = calculate_risk(&vec![valued("fine_art", 100_000)]);
    assert_eq!(m.volatility_30d, 1_500);
    assert_eq!(m.max_drawdown_1y, 3_750);
    // (0.07 - 0.04) / 0.15 = 0.2
    assert_eq!(m.sharpe_ratio, 20);
    assert_eq!(AssetClass::from_name(&"fine_art".to_string()), AssetClass::Other);
    assert_eq!(AssetClass::Other.volatility(), 15);
    assert_eq!(AssetClass::Other.expected_return(), 7);
}

#[test]
fn class_names_are_case_sensitive() {
    assert_eq!(AssetClass::from_name(&"cash".to_string()), AssetClass::Cash);
    assert_eq!(AssetClass::from_name(&"Cash".to_string()), AssetClass::Other);
    assert_eq!(AssetClass::from_name(&"real_estate".to_string()), AssetClass::RealEstate);
    let m = calculate_risk(&vec![valued("Cash", 100_000)]);
    assert_eq!(m.cash_pct, 0);
    assert_eq!(m.volatility_30d, 1_500);
}

#[test]
fn class_tables() {
    let classes = [
        ("cash", 1, 4),
        ("bond", 5, 5),
        ("equity", 18, 10),
        ("crypto", 80, 15),
        ("commodity", 25, 8),
        ("real_estate", 12, 9),
    ];
    for (name, vol, ret) in classes {
        let c = AssetClass::from_name(&name.to_string());
        assert_eq!(c.volatility(), vol);
        assert_eq!(c.expected_return(), ret);
    }
}

#[test]
fn negative_weighted_volatility_gives_zero_sharpe() {
    let m = calculate_risk(&vec![valued("equity", -100_000), valued("cash", 200_000)]);
    // weights -1 and 2: volatility -18 + 2 = -16
    assert_eq!(m.volatility_30d, -1_600);
    assert_eq!(m.max_drawdown_1y, -4_000);
    assert_eq!(m.sharpe_ratio, 0);
    assert_eq!(m.cash_pct, 20_000);
    assert_eq!(m.top_holding_pct, 20_000);
}

#[test]
fn short_position_is_not_top() {
    let m = calculate_risk(&vec![valued("equity", 150_000), valued("bond", -50_000)]);
    assert_eq!(m.top_holding_pct, 15_000);
    // 1 - (2.25 + 0.25) = -1.5
    assert_eq!(m.diversification_score, -15_000);
}

#[test]
fn negative_total_picks_largest_weight() {
    let m = calculate_risk(&vec![valued("equity", -30_000), valued("bond", -10_000)]);
    // weights 0.75 and 0.25
    assert_eq!(m.total_value, -40_000);
    assert_eq!(m.top_holding_pct, 7_500);
    assert_eq!(m.diversification_score, 3_750);
}

#[test]
fn market_value_preferred_over_cost() {
    let mut h = bought("equity", 100_000, 5_000);
    h.market_value = Some(60_000);
    h.current_price = Some(9_999);
    let m = calculate_risk(&vec![h, bought("cash", 10_000, 40_000)]);
    // 600.00 + 1 unit at 400.00
    assert_eq!(m.total_value, 100_000);
    assert_eq!(m.cash_pct, 4_000);
}

#[test]
fn value_from_quantity_and_cost() {
    let m = calculate_risk(&vec![bought("bond", 100_000, 1_234)]);
    assert_eq!(m.total_value, 12_340);
    assert_eq!(m.volatility_30d, 500);
    // (0.05 - 0.04) / 0.05 = 0.2
    assert_eq!(m.sharpe_ratio, 20);
}

#[test]
fn limits_of_the_computation() {
    assert!(holdings_within_limits(&vec![valued("cash", 100_000)]));
    assert!(holdings_within_limits(&Vec::new()));
    assert!(!holdings_within_limits(&vec![bought("cash", i64::MAX, i64::MAX)]));
    let half = (VALUE_LIMIT / 2 / 10_000) as i64;
    assert!(holdings_within_limits(&vec![valued("cash", half), valued("bond", -half)]));
    assert!(!holdings_within_limits(&vec![
        valued("cash", half),
        valued("bond", -half),
        valued("cash", 1)
    ]));
}

#[test]
fn largest_portfolio_rounds_exactly() {
    let half = (VALUE_LIMIT / 2 / 10_000) as i64;
    let m = calculate_risk(&vec![valued("crypto", half), valued("cash", half)]);
    assert_eq!(m.total_value, 2 * half as i128);
    assert_eq!(m.volatility_30d, 4_050);
    assert_eq!(m.diversification_score, 5_000);
}

#[test]
fn rounding_halves_away_from_zero() {
    assert_eq!(div_round(5, 10), 1);
    assert_eq!(div_round(-5, 10), -1);
    assert_eq!(div_round(15, -10), -2);
    assert_eq!(div_round(14, 10), 1);
    assert_eq!(div_round(-16, -10), 2);
    assert_eq!(div_round(0, -7), 0);
}
