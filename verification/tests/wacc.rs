use fairvalue::error::ValuationError;
use fairvalue::wacc::{Wacc, PRESUMED_MARKET_GROWTH};

fn sample() -> Wacc {
    Wacc {
        interest_income: 50_000_000,
        long_term_debt: 800_000_000,
        total_current_liabilities: 200_000_000,
        pre_tax: 400_000_000,
        income_tax: 100_000_000,
        ten_year_treasury_rate: 2_000_000,
        beta: 1_200_000,
        market_cap: 9_000_000_000,
        presumed_market_growth: PRESUMED_MARKET_GROWTH,
    }
}

#[test]
fn presumed_market_growth_is_ten_percent() {
    assert_eq!(PRESUMED_MARKET_GROWTH, 10_000_000);
}

#[test]
fn wacc_without_debt_is_an_arithmetic_failure() {
    let mut w = sample();
    w.long_term_debt = 0;
    w.total_current_liabilities = 0;
    assert_eq!(w.generate_wacc(), Err(ValuationError::ArithmeticError));
    assert_eq!(w.cost_to_debt(), None);
}

#[test]
fn wacc_with_cancelling_debt_is_an_arithmetic_failure() {
    let mut w = sample();
    w.long_term_debt = 500;
    w.total_current_liabilities = -500;
    assert_eq!(w.generate_wacc(), Err(ValuationError::ArithmeticError));
}

#[test]
fn wacc_without_pretax_income_is_an_arithmetic_failure() {
    let mut w = sample();
    w.pre_tax = 0;
    assert_eq!(w.effective_tax_rate(), None);
    assert_eq!(w.generate_wacc(), Err(ValuationError::ArithmeticError));
}

#[test]
fn wacc_without_capital_is_an_arithmetic_failure() {
    let mut w = sample();
    w.market_cap = -1_000_000_000;
    assert_eq!(w.cost_of_equity(1_000_000_000), None);
    assert_eq!(w.generate_wacc(), Err(ValuationError::ArithmeticError));
}

#[test]
fn wacc_beyond_64_bits_is_an_arithmetic_failure() {
    let mut w = sample();
    w.long_term_debt = i64::MAX;
    assert_eq!(w.generate_wacc(), Err(ValuationError::ArithmeticError));
    let mut v = sample();
    v.beta = i64::MAX;
    assert_eq!(v.capital_asset_pricing_model(), None);
    assert_eq!(v.generate_wacc(), Err(ValuationError::ArithmeticError));
}

#[test]
fn cost_of_equity_with_beta_one_is_the_market_growth() {
    let mut w = sample();
    w.ten_year_treasury_rate = 2_000_000;
    w.beta = 1_000_000;
    w.presumed_market_growth = 10_000_000;
    assert_eq!(w.capital_asset_pricing_model(), Some(10_000_000));
}

#[test]
fn cost_of_equity_scales_the_premium_by_beta() {
    assert_eq!(sample().capital_asset_pricing_model(), Some(11_600_000));
    let mut w = sample();
    w.beta = 0;
    assert_eq!(w.capital_asset_pricing_model(), Some(2_000_000));
    w.beta = -500_000;
    assert_eq!(w.capital_asset_pricing_model(), Some(-2_000_000));
}

#[test]
fn market_growth_is_configurable() {
    let mut w = sample();
    w.presumed_market_growth = 8_000_000;
    assert_eq!(w.capital_asset_pricing_model(), Some(9_200_000));
}

#[test]
fn effective_tax_rate_is_tax_over_pretax_income() {
    assert_eq!(sample().effective_tax_rate(), Some(250_000));
}

#[test]
fn cost_to_debt_is_interest_over_total_debt() {
    assert_eq!(sample().cost_to_debt(), Some((1_000_000_000, 50_000)));
}

#[test]
fn weights_are_debt_over_capital_and_the_rest() {
    assert_eq!(sample().cost_of_equity(1_000_000_000), Some((900_000, 100_000)));
    assert_eq!(sample().cost_of_equity(3_000_000_000), Some((750_000, 250_000)));
}

#[test]
fn wacc_of_the_sample_company() {
    // 0.1 * (1 - 0.25 * 0.05) + 0.9 * 11.6 = 10.53875
    assert_eq!(sample().generate_wacc(), Ok(10_538_750));
}
