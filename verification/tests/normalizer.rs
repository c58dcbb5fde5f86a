use fairvalue::error::ValuationError;
use fairvalue::models::{AnnualCashFlow, AnnualIncomeStatement, Estimate, EstimateResponse,
    EstimateResponseList};
use fairvalue::normalize::{normalize_estimates_data, parse_fiscal_year, reversed};

fn estimate(cpx: i64, cps: i64, net: i64, sal: i64, label: &str) -> EstimateResponse {
    EstimateResponse {
        consensus_CPX: cpx,
        consensus_CPS: cps,
        consensus_NET: net,
        consensus_SAL: sal,
        fiscal_period: label.to_string(),
    }
}

#[test]
fn fiscal_year_of_a_plain_label() {
    assert_eq!(parse_fiscal_year("FY 2023"), Ok(2023));
    assert_eq!(parse_fiscal_year("FY 0"), Ok(0));
    assert_eq!(parse_fiscal_year("FY 65535"), Ok(65535));
    assert_eq!(parse_fiscal_year("FY 0002023"), Ok(2023));
}

#[test]
fn fiscal_year_may_carry_a_plus_sign() {
    assert_eq!(parse_fiscal_year("FY +2023"), Ok(2023));
    assert_eq!(parse_fiscal_year("FY +"), Err(ValuationError::ParseError));
    assert_eq!(parse_fiscal_year("FY ++1"), Err(ValuationError::ParseError));
}

#[test]
fn fiscal_year_follows_the_first_marker() {
    assert_eq!(parse_fiscal_year("Q4 FY 2023"), Ok(2023));
    assert_eq!(parse_fiscal_year("FY 2023FY 5"), Ok(2023));
    assert_eq!(parse_fiscal_year("FFY 7"), Ok(7));
}

#[test]
fn label_without_marker_is_a_parse_failure() {
    assert_eq!(parse_fiscal_year(""), Err(ValuationError::ParseError));
    assert_eq!(parse_fiscal_year("2023"), Err(ValuationError::ParseError));
    assert_eq!(parse_fiscal_year("FY2023"), Err(ValuationError::ParseError));
    assert_eq!(parse_fiscal_year("fy 2023"), Err(ValuationError::ParseError));
    assert_eq!(parse_fiscal_year("FY"), Err(ValuationError::ParseError));
}

#[test]
fn label_without_year_is_a_parse_failure() {
    assert_eq!(parse_fiscal_year("FY "), Err(ValuationError::ParseError));
    assert_eq!(parse_fiscal_year("FY abc"), Err(ValuationError::ParseError));
    assert_eq!(parse_fiscal_year("FY 2023 "), Err(ValuationError::ParseError));
    assert_eq!(parse_fiscal_year("FY  2023"), Err(ValuationError::ParseError));
    assert_eq!(parse_fiscal_year("FY -2023"), Err(ValuationError::ParseError));
    assert_eq!(parse_fiscal_year("FY 20\u{0663}3"), Err(ValuationError::ParseError));
    assert_eq!(parse_fiscal_year("FY FY 2023"), Err(ValuationError::ParseError));
}

#[test]
fn year_beyond_16_bits_is_a_parse_failure() {
    assert_eq!(parse_fiscal_year("FY 65536"), Err(ValuationError::ParseError));
    assert_eq!(parse_fiscal_year("FY 99999999999999999999999"), Err(ValuationError::ParseError));
}

#[test]
fn cash_flow_is_per_share_figure_times_shares() {
    let list = EstimateResponseList { estimates: vec![estimate(0, 1_500_000, 0, 0, "FY 2023")] };
    let (cash, _) = normalize_estimates_data(&list, 1_000_000).unwrap();
    assert_eq!(cash.len(), 1);
    assert_eq!(cash[0].cash_flow, 1_500_000);
}

#[test]
fn figures_in_millions_become_whole_units() {
    // 0.25 million of capital expenditure, 12.5 million net income, 100 million revenue
    let list = EstimateResponseList {
        estimates: vec![estimate(250_000, 2_000_000, 12_500_000, 100_000_000, "FY 2024")],
    };
    let (cash, income) = normalize_estimates_data(&list, 3).unwrap();
    assert_eq!(
        cash,
        vec![AnnualCashFlow {
            capital_expenditures: -250_000,
            cash_flow: 6,
            fiscal_year: 2024,
            net_income: 12_500_000,
        }]
    );
    assert_eq!(
        income,
        vec![AnnualIncomeStatement {
            fiscal_year: 2024,
            total_revenue: 100_000_000,
            net_income: 12_500_000,
            interest_income: 0,
            income_tax: 0,
            pretax_income: 0,
        }]
    );
}

#[test]
fn cash_flow_is_rounded_towards_zero() {
    let list = EstimateResponseList {
        estimates: vec![estimate(0, 333_333, 0, 0, "FY 1"), estimate(0, -333_333, 0, 0, "FY 2")],
    };
    let (cash, _) = normalize_estimates_data(&list, 10).unwrap();
    assert_eq!(cash[0].cash_flow, -3);
    assert_eq!(cash[1].cash_flow, 3);
}

#[test]
fn normalizing_puts_the_earliest_period_first() {
    let list = EstimateResponseList {
        estimates: vec![
            estimate(1, 0, 0, 0, "FY 2024"),
            estimate(2, 0, 0, 0, "FY 2023"),
            estimate(3, 0, 0, 0, "FY 2022"),
        ],
    };
    let (cash, income) = normalize_estimates_data(&list, 1).unwrap();
    let years: Vec<u16> = cash.iter().map(|c| c.fiscal_year).collect();
    assert_eq!(years, vec![2022, 2023, 2024]);
    let capex: Vec<i64> = cash.iter().map(|c| c.capital_expenditures).collect();
    assert_eq!(capex, vec![-3, -2, -1]);
    let years: Vec<u16> = income.iter().map(|c| c.fiscal_year).collect();
    assert_eq!(years, vec![2022, 2023, 2024]);
}

#[test]
fn normalizing_two_estimates_swaps_them() {
    let list = EstimateResponseList {
        estimates: vec![
            estimate(0, 0, 0, 20_000_000, "FY 2025"),
            estimate(0, 0, 0, 10_000_000, "FY 2024"),
        ],
    };
    let (cash, income) = normalize_estimates_data(&list, 1).unwrap();
    let years: Vec<u16> = cash.iter().map(|c| c.fiscal_year).collect();
    assert_eq!(years, vec![2024, 2025]);
    let years: Vec<u16> = income.iter().map(|c| c.fiscal_year).collect();
    assert_eq!(years, vec![2024, 2025]);
    let revenue: Vec<i64> = income.iter().map(|c| c.total_revenue).collect();
    assert_eq!(revenue, vec![10_000_000, 20_000_000]);
}

#[test]
fn normalizing_reverses_whatever_order_came() {
    let list = EstimateResponseList {
        estimates: vec![
            estimate(1, 0, 0, 0, "FY 2022"),
            estimate(2, 0, 0, 0, "FY 2024"),
            estimate(3, 0, 0, 0, "FY 2023"),
        ],
    };
    let (cash, _) = normalize_estimates_data(&list, 1).unwrap();
    let years: Vec<u16> = cash.iter().map(|c| c.fiscal_year).collect();
    assert_eq!(years, vec![2023, 2024, 2022]);
}

#[test]
fn estimates_come_back_in_chronological_order() {
    let list = EstimateResponseList {
        estimates: vec![
            estimate(1, 0, 10, 100, "FY 2024"),
            estimate(2, 0, 20, 200, "FY 2023"),
            estimate(3, 0, 30, 300, "FY 2022"),
        ],
    };
    let estimate = Estimate::from_response(&list, 1).unwrap();
    let years: Vec<u16> = estimate.cash_flow_estimates.iter().map(|c| c.fiscal_year).collect();
    assert_eq!(years, vec![2022, 2023, 2024]);
    let capex: Vec<i64> =
        estimate.cash_flow_estimates.iter().map(|c| c.capital_expenditures).collect();
    assert_eq!(capex, vec![-3, -2, -1]);
    let revenue: Vec<i64> = estimate.revenue_estimates.iter().map(|c| c.total_revenue).collect();
    assert_eq!(revenue, vec![300, 200, 100]);
}

#[test]
fn no_estimates_normalize_to_nothing() {
    let list = EstimateResponseList { estimates: vec![] };
    assert_eq!(normalize_estimates_data(&list, 5), Ok((vec![], vec![])));
    assert_eq!(
        Estimate::from_response(&list, 5),
        Ok(Estimate { cash_flow_estimates: vec![], revenue_estimates: vec![] })
    );
}

#[test]
fn malformed_label_fails_the_normalization() {
    let list = EstimateResponseList {
        estimates: vec![estimate(1, 1, 1, 1, "FY 2024"), estimate(1, 1, 1, 1, "2023")],
    };
    assert_eq!(normalize_estimates_data(&list, 1), Err(ValuationError::ParseError));
    assert_eq!(Estimate::from_response(&list, 1), Err(ValuationError::ParseError));
}

#[test]
fn the_first_estimate_that_fails_decides_the_failure() {
    let overflowing = estimate(0, i64::MAX, 0, 0, "FY 2024");
    let malformed = estimate(0, 0, 0, 0, "2023");
    let list = EstimateResponseList { estimates: vec![overflowing.clone(), malformed.clone()] };
    assert_eq!(normalize_estimates_data(&list, 2_000_000), Err(ValuationError::ArithmeticError));
    let list = EstimateResponseList { estimates: vec![malformed, overflowing] };
    assert_eq!(normalize_estimates_data(&list, 2_000_000), Err(ValuationError::ParseError));
}

#[test]
fn capital_expenditure_that_cannot_change_sign_is_an_arithmetic_failure() {
    let list = EstimateResponseList { estimates: vec![estimate(i64::MIN, 0, 0, 0, "FY 2024")] };
    assert_eq!(normalize_estimates_data(&list, 1), Err(ValuationError::ArithmeticError));
}

#[test]
fn reversed_turns_the_order_round() {
    assert_eq!(reversed(&vec![1u16, 2, 3]), vec![3, 2, 1]);
    assert_eq!(reversed(&Vec::<u16>::new()), Vec::<u16>::new());
    assert_eq!(reversed(&vec![7u16]), vec![7]);
}
