use fairvalue::dcf::{discount, discount_estimates_to_today, discount_wide,
    discounted_terminal_value, present_value_in_millionths, project_earnings,
    terminal_value_in_millionths};
use fairvalue::error::ValuationError;
use fairvalue::models::CompanyIncome;

fn period(fiscal_year: u16, revenue: i64, net_income: i64, free_cash_flow: i64) -> CompanyIncome {
    CompanyIncome { revenue, net_income, free_cash_flow, fiscal_year }
}

#[test]
fn forecast_years_follow_the_last_known_year() {
    let known = vec![period(2022, 900, 90, 80), period(2023, 1000, 100, 90)];
    let forecast = project_earnings(&known, 10_000_000, 10_000_000, 50_000_000, 2).unwrap();
    let years: Vec<u16> = forecast.iter().map(|p| p.fiscal_year).collect();
    assert_eq!(years, vec![2024, 2025]);
}

#[test]
fn forecast_years_rise_by_one() {
    let known = vec![period(1999, 1000, 100, 90)];
    let forecast = project_earnings(&known, 0, 0, 0, 6).unwrap();
    assert_eq!(forecast.len(), 6);
    let mut previous = 1999;
    for p in forecast.iter() {
        assert_eq!(p.fiscal_year, previous + 1);
        previous = p.fiscal_year;
    }
}

#[test]
fn forecast_applies_growth_margin_and_ratio() {
    let known = vec![period(2023, 1000, 500, 400)];
    let forecast = project_earnings(&known, 10_000_000, 20_000_000, 50_000_000, 2).unwrap();
    assert_eq!(
        forecast,
        vec![period(2024, 1100, 220, 110), period(2025, 1210, 242, 121)]
    );
}

#[test]
fn forecast_figures_are_rounded_towards_zero() {
    let known = vec![period(2023, 999, 0, 0)];
    // 999 * 1.015 = 1013.985; 1013 * 0.333 = 337.329; 337 * 0.5 = 168.5
    let forecast = project_earnings(&known, 1_500_000, 33_300_000, 50_000_000, 1).unwrap();
    assert_eq!(forecast, vec![period(2024, 1013, 337, 168)]);
    let forecast = project_earnings(&known, 1_500_000, -33_300_000, 50_000_000, 1).unwrap();
    assert_eq!(forecast, vec![period(2024, 1013, -337, -168)]);
}

#[test]
fn forecast_of_no_years_is_empty() {
    let known = vec![period(2023, 1000, 500, 400)];
    assert_eq!(project_earnings(&known, 10_000_000, 20_000_000, 50_000_000, 0), Ok(vec![]));
}

#[test]
fn forecast_from_nothing_is_a_data_failure() {
    assert_eq!(project_earnings(&vec![], 1, 1, 1, 2), Err(ValuationError::ProviderDataError));
    assert_eq!(project_earnings(&vec![], 1, 1, 1, 0), Err(ValuationError::ProviderDataError));
}

#[test]
fn forecast_beyond_the_last_fiscal_year_is_an_arithmetic_failure() {
    let known = vec![period(65534, 1000, 500, 400)];
    assert_eq!(project_earnings(&known, 0, 0, 0, 1).unwrap()[0].fiscal_year, 65535);
    assert_eq!(project_earnings(&known, 0, 0, 0, 2), Err(ValuationError::ArithmeticError));
}

#[test]
fn forecast_beyond_64_bits_is_an_arithmetic_failure() {
    let known = vec![period(2023, i64::MAX, 0, 0)];
    assert_eq!(project_earnings(&known, 1, 0, 0, 1), Err(ValuationError::ArithmeticError));
    assert_eq!(project_earnings(&known, 0, i64::MAX, 0, 1), Err(ValuationError::ArithmeticError));
    let known = vec![period(2023, 1_000_000, 0, 0)];
    assert_eq!(
        project_earnings(&known, 0, HALF_RANGE, HALF_RANGE, 1),
        Err(ValuationError::ArithmeticError)
    );
}

const HALF_RANGE: i64 = 4_000_000_000_000_000_000;

#[test]
fn discounting_divides_by_a_power_of_one_plus_the_rate() {
    assert_eq!(discount(1166, 80_000, 0), Ok(1166));
    // 1166 / 1.08 = 1079.62...; 1166 / 1.1664 = 999.65...
    assert_eq!(discount(1166, 80_000, 1), Ok(1079));
    assert_eq!(discount(1166, 80_000, 2), Ok(999));
    assert_eq!(discount(-1166, 80_000, 2), Ok(-999));
    assert_eq!(discount(1000, 0, 5), Ok(1000));
    assert_eq!(discount(1000, -500_000, 3), Ok(8000));
    // 1000 / 1.259712 = 793.83...
    assert_eq!(discount(1000, 80_000, 3), Ok(793));
}

#[test]
fn discounting_rounds_once() {
    // 18636 / 1.1664 = 15977.36...; dividing twice by 1.08 and rounding
    // each time would give 15976.
    assert_eq!(discount(18_636, 80_000, 2), Ok(15_977));
    // 100 / 1.5 / 1.5 = 44.44...
    assert_eq!(discount(100, 500_000, 2), Ok(44));
    assert_eq!(discount(-100, 500_000, 2), Ok(-44));
}

#[test]
fn discounting_keeps_the_unit_of_the_amount() {
    // 1000 units are 1 000 000 000 millionths; 1000 / 1.1664 = 857.338820...
    assert_eq!(discount_wide(1_000_000_000, 80_000, 2), Some(857_338_820));
    assert_eq!(discount_wide(0, 80_000, 40), Some(0));
    assert_eq!(discount_wide(5, -2_000_000, 1), Some(-5));
    assert_eq!(discount_wide(5, -2_000_000, 2), Some(5));
    assert_eq!(discount_wide(i128::MAX, 0, 0), Some(i128::MAX));
    assert_eq!(discount_wide(i128::MIN, 0, 0), None);
    assert_eq!(discount_wide(i128::MAX, 0, 1), None);
}

#[test]
fn discounting_at_minus_one_is_an_arithmetic_failure() {
    assert_eq!(discount(1000, -1_000_000, 1), Err(ValuationError::ArithmeticError));
    assert_eq!(discount(0, -1_000_000, 3), Err(ValuationError::ArithmeticError));
    assert_eq!(discount(1000, -1_000_000, 0), Ok(1000));
    assert_eq!(discount_wide(1000, -1_000_000, 1), None);
}

#[test]
fn discounting_beyond_64_bits_is_an_arithmetic_failure() {
    assert_eq!(discount(i64::MAX, -999_999, 1), Err(ValuationError::ArithmeticError));
    assert_eq!(discount(i64::MIN, -2_000_000, 1), Err(ValuationError::ArithmeticError));
    assert_eq!(discount(1000, i64::MAX, 1), Ok(0));
    assert_eq!(discount(1000, i64::MAX, 0), Ok(1000));
}

#[test]
fn discounting_an_amount_too_wide_to_scale_is_an_arithmetic_failure() {
    // i64::MAX times a million to the fourth power does not fit in 127 bits.
    assert_eq!(discount(i64::MAX, 0, 3), Ok(i64::MAX));
    assert_eq!(discount(i64::MAX, 0, 4), Err(ValuationError::ArithmeticError));
    assert_eq!(discount(1, 0, 6), Ok(1));
    assert_eq!(discount(1, 0, 7), Err(ValuationError::ArithmeticError));
}

#[test]
fn present_value_adds_up_the_discounted_periods() {
    let forecast = vec![period(2024, 0, 0, 1080), period(2025, 0, 0, 11_664)];
    // 1080 / 1.08 = 1000; 11664 / 1.1664 = 10000
    assert_eq!(discount_estimates_to_today(&forecast, 80_000), Ok(11_000));
    assert_eq!(present_value_in_millionths(&forecast, 80_000), Some(11_000_000_000));
    assert_eq!(discount_estimates_to_today(&vec![], 80_000), Ok(0));
    assert_eq!(present_value_in_millionths(&vec![], 80_000), Some(0));
}

#[test]
fn present_value_is_rounded_once() {
    // 1000 / 1.08 + 1000 / 1.1664 = 925.925925... + 857.338820... = 1783.26...
    let forecast = vec![period(2024, 0, 0, 1000), period(2025, 0, 0, 1000)];
    assert_eq!(present_value_in_millionths(&forecast, 80_000), Some(1_783_264_745));
    assert_eq!(discount_estimates_to_today(&forecast, 80_000), Ok(1_783));
    // 0 + 1000 / 1.1664 = 857.338820...
    let forecast = vec![period(2024, 0, 0, 0), period(2025, 0, 0, 1000)];
    assert_eq!(present_value_in_millionths(&forecast, 80_000), Some(857_338_820));
    assert_eq!(discount_estimates_to_today(&forecast, 80_000), Ok(857));
}

#[test]
fn present_value_beyond_64_bits_is_an_arithmetic_failure() {
    let forecast = vec![period(2024, 0, 0, i64::MAX), period(2025, 0, 0, i64::MAX)];
    assert_eq!(discount_estimates_to_today(&forecast, 0), Err(ValuationError::ArithmeticError));
    let forecast = vec![period(2024, 0, 0, 1)];
    assert_eq!(
        discount_estimates_to_today(&forecast, -1_000_000),
        Err(ValuationError::ArithmeticError)
    );
    assert_eq!(present_value_in_millionths(&forecast, -1_000_000), None);
}

#[test]
fn terminal_value_before_discounting() {
    // 1000 * 1.025 / (0.08 - 0.025) = 18636.363636...
    assert_eq!(terminal_value_in_millionths(1000, 80_000, 25_000, 0), Some(18_636_363_636));
    assert_eq!(discounted_terminal_value(1000, 80_000, 25_000, 0), Ok(18_636));
}

#[test]
fn terminal_value_is_discounted_over_the_forecast() {
    // 18636.363636 / 1.08 = 17255.892255...; 18636.363636 / 1.1664 = 15977.678014...
    assert_eq!(terminal_value_in_millionths(1000, 80_000, 25_000, 1), Some(17_255_892_255));
    assert_eq!(terminal_value_in_millionths(1000, 80_000, 25_000, 2), Some(15_977_678_014));
    assert_eq!(discounted_terminal_value(1000, 80_000, 25_000, 1), Ok(17_255));
    assert_eq!(discounted_terminal_value(1000, 80_000, 25_000, 2), Ok(15_977));
}

#[test]
fn explicit_and_terminal_value_add_up_in_millionths() {
    // 857.338820 + 15977.678014 = 16835.016834
    let forecast = vec![period(2024, 0, 0, 0), period(2025, 0, 0, 1000)];
    let explicit = present_value_in_millionths(&forecast, 80_000).unwrap();
    let terminal = terminal_value_in_millionths(1000, 80_000, 25_000, 2).unwrap();
    assert_eq!(explicit + terminal, 16_835_016_834);
    assert_eq!((explicit + terminal) / 1_000_000, 16_835);
}

#[test]
fn terminal_value_needs_a_positive_spread() {
    assert_eq!(
        discounted_terminal_value(1000, 25_000, 25_000, 2),
        Err(ValuationError::ArithmeticError)
    );
    assert_eq!(
        discounted_terminal_value(1000, 24_999, 25_000, 2),
        Err(ValuationError::ArithmeticError)
    );
    assert_eq!(terminal_value_in_millionths(1000, 25_000, 25_000, 2), None);
    assert_eq!(discounted_terminal_value(1000, 25_001, 25_000, 0), Ok(1_025_000_000));
    assert_eq!(
        discounted_terminal_value(1000, i64::MIN, 1, 0),
        Err(ValuationError::ArithmeticError)
    );
    assert_eq!(discounted_terminal_value(1000, i64::MAX, -1, 0), Ok(0));
}

#[test]
fn terminal_value_beyond_64_bits_is_an_arithmetic_failure() {
    assert_eq!(
        discounted_terminal_value(i64::MAX, 2, 1, 0),
        Err(ValuationError::ArithmeticError)
    );
    assert_eq!(
        terminal_value_in_millionths(i64::MAX, 2, 1, 0),
        Some(9_223_381_260_226_812_661_775_807_000_000)
    );
    assert_eq!(terminal_value_in_millionths(i64::MAX, i64::MAX, i64::MAX - 1, 0), None);
}
