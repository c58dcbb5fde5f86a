//! The records exchanged with the data provider and between the stages of a
//! valuation.
//!
//! Amounts of money are whole currency units. Fields documented as
//! fixed-point hold six fractional digits, as described in [`crate::fixed`].

use vstd::prelude::*;

verus! {

/// One fiscal year of a company's cash flow.
#[derive(Clone, Copy, Debug, PartialEq, Eq, Structural)]
pub struct AnnualCashFlow {
    pub capital_expenditures: i64,
    pub cash_flow: i64,
    pub fiscal_year: u16,
    pub net_income: i64,
}

/// One fiscal year of a company's income statement.
#[derive(Clone, Copy, Debug, PartialEq, Eq, Structural)]
pub struct AnnualIncomeStatement {
    pub fiscal_year: u16,
    pub total_revenue: i64,
    pub net_income: i64,
    pub interest_income: i64,
    pub income_tax: i64,
    pub pretax_income: i64,
}

/// The liabilities a discount rate is derived from.
#[derive(Clone, Copy, Debug, PartialEq, Eq, Structural)]
pub struct BalanceSheet {
    pub long_term_debt: i64,
    pub total_current_liabilities: i64,
}

/// The provider's answer to a balance-sheet request, most recent first.
#[derive(Clone, Debug, PartialEq, Eq)]
pub struct BalanceSheetResponse {
    pub balancesheet: Vec<BalanceSheet>,
}

/// One observation of the ten-year treasury rate, a fixed-point percentage.
#[derive(Clone, Copy, Debug, PartialEq, Eq, Structural)]
pub struct TreasuryRate {
    pub value: i64,
}

/// The provider's answer to a treasury-rate request, most recent first.
#[derive(Clone, Debug, PartialEq, Eq)]
pub struct TreasuryRateResponse {
    pub rate: Vec<TreasuryRate>,
}

/// The fundamentals of a company. `beta` is fixed-point.
#[derive(Clone, Copy, Debug, PartialEq, Eq, Structural)]
pub struct CompanyStats {
    pub shares_outstanding: i64,
    pub marketcap: i64,
    pub beta: i64,
}

/// The provider's answer to a cash-flow request.
#[derive(Clone, Debug, PartialEq, Eq)]
pub struct CompanyCashFlowResponse {
    pub cashflow: Vec<AnnualCashFlow>,
}

/// The provider's answer to an income-statement request, most recent first.
#[derive(Clone, Debug, PartialEq, Eq)]
pub struct CompanyIncomeStatementResponse {
    pub symbol: String,
    pub income: Vec<AnnualIncomeStatement>,
}

/// One analyst consensus estimate in the provider's own units.
///
/// All four figures are fixed-point. `consensus_CPS` is cash flow per
/// share; the other three are in millions of currency units.
/// `fiscal_period` is a label of the form `FY <year>`.
#[derive(Clone, Debug, PartialEq, Eq)]
#[allow(non_snake_case)]
pub struct EstimateResponse {
    pub consensus_CPX: i64,
    pub consensus_CPS: i64,
    pub consensus_NET: i64,
    pub consensus_SAL: i64,
    pub fiscal_period: String,
}

/// The provider's answer to an estimates request, most recent first.
#[derive(Clone, Debug, PartialEq, Eq)]
pub struct EstimateResponseList {
    pub estimates: Vec<EstimateResponse>,
}

/// Consensus estimates in absolute currency units, as two series over the
/// same fiscal years.
#[derive(Clone, Debug, PartialEq, Eq)]
pub struct Estimate {
    pub cash_flow_estimates: Vec<AnnualCashFlow>,
    pub revenue_estimates: Vec<AnnualIncomeStatement>,
}

/// A fiscal year in which a cash-flow record and an income record meet.
#[derive(Clone, Copy, Debug, PartialEq, Eq, Structural)]
pub struct CompanyIncome {
    pub revenue: i64,
    pub net_income: i64,
    pub free_cash_flow: i64,
    pub fiscal_year: u16,
}

} // verus!
