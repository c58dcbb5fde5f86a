//! The discounted-free-cash-flow method from the provider's answers to a
//! fair value per share.

use vstd::prelude::*;
use crate::dcf::{discounted_terminal, forecast_at, present_value, present_value_in_millionths,
    project_earnings, terminal_value_in_millionths};
use crate::error::ValuationError;
use crate::fixed::{fits, fits_wide, lemma_trunc_div_bound, trunc_div, ONE};
use crate::growth::{average_growth, calc_average_growth, company_income, equity_to_cash_flow,
    growth_defined, joined, lemma_minimum_margin_unique, lemma_minimum_ratio_unique,
    minimum_margin, minimum_ratio, ratios_defined};
use crate::models::{AnnualCashFlow, AnnualIncomeStatement, BalanceSheetResponse, CompanyIncome,
    CompanyIncomeStatementResponse, CompanyStats, Estimate, EstimateResponseList};
use crate::normalize::{first_failure, normalized_ascending, record_at};
use crate::wacc::Wacc;

verus! {

/// The number of fiscal years that are forecast one by one.
pub const FORECAST_PERIODS: usize = 2;

/// The growth, in percent, at which free cash flow is presumed to rise for
/// ever after the forecast, where nothing else is configured.
pub const PERPETUAL_GROWTH: i64 = 2_500_000;

/// What the provider answered to the five requests of one valuation, each
/// answer or the failure of its request.
#[derive(Debug)]
pub struct Responses {
    pub income_statement: Result<CompanyIncomeStatementResponse, ValuationError>,
    pub balance_sheet: Result<BalanceSheetResponse, ValuationError>,
    pub treasury_rate: Result<i64, ValuationError>,
    pub company_stats: Result<CompanyStats, ValuationError>,
    pub estimates: Result<EstimateResponseList, ValuationError>,
}

impl Responses {
    /// The failure of the first request that failed, in the order of the
    /// fields, if any did.
    pub open spec fn first_failure(&self) -> Option<ValuationError> {
        if self.income_statement is Err {
            Some(self.income_statement->Err_0)
        } else if self.balance_sheet is Err {
            Some(self.balance_sheet->Err_0)
        } else if self.treasury_rate is Err {
            Some(self.treasury_rate->Err_0)
        } else if self.company_stats is Err {
            Some(self.company_stats->Err_0)
        } else if self.estimates is Err {
            Some(self.estimates->Err_0)
        } else {
            None
        }
    }

    /// Whether at least one of the five requests failed.
    pub open spec fn any_failed(&self) -> bool {
        ||| self.income_statement is Err
        ||| self.balance_sheet is Err
        ||| self.treasury_rate is Err
        ||| self.company_stats is Err
        ||| self.estimates is Err
    }

    /// Whether all requests were answered and the answers hold the most
    /// recent income statement and balance sheet.
    pub open spec fn complete(&self) -> bool {
        &&& !self.any_failed()
        &&& self.income_statement->Ok_0.income@.len() > 0
        &&& self.balance_sheet->Ok_0.balancesheet@.len() > 0
    }

    /// What the cost of capital is computed from: the most recent income
    /// statement and balance sheet, the company's statistics and the
    /// treasury rate.
    pub open spec fn capital_inputs(&self, presumed_market_growth: i64) -> Wacc
        recommends
            self.complete(),
    {
        let income = self.income_statement->Ok_0.income@[0];
        let balance = self.balance_sheet->Ok_0.balancesheet@[0];
        let stats = self.company_stats->Ok_0;
        Wacc {
            interest_income: income.interest_income,
            long_term_debt: balance.long_term_debt,
            total_current_liabilities: balance.total_current_liabilities,
            pre_tax: income.pretax_income,
            income_tax: income.income_tax,
            ten_year_treasury_rate: self.treasury_rate->Ok_0,
            beta: stats.beta,
            market_cap: stats.marketcap,
            presumed_market_growth,
        }
    }
}

/// A rate in percent as a fraction, rounded towards zero.
pub open spec fn percent_to_fraction(percent: int) -> int {
    trunc_div(percent, 100)
}

/// The forecast of `periods` fiscal years after `base`, where it exists.
pub open spec fn forecast_series(
    base: CompanyIncome,
    growth: int,
    margin: int,
    ratio: int,
    periods: nat,
) -> Seq<CompanyIncome> {
    Seq::new(periods, |k: int| forecast_at(base, growth, margin, ratio, (k + 1) as nat).unwrap())
}

/// The value today of a company's future free cash flow, in millionths
/// of a currency unit, where every figure on the way to it exists: the
/// forecast periods and everything after them, discounted at the required
/// rate of return.
///
/// `base` is the most recent known period. `growth`, `margin`, `ratio`,
/// `required_rate_of_return` and `perpetual_growth` are percentages.
pub open spec fn aggregate_present_value(
    base: CompanyIncome,
    growth: int,
    margin: int,
    ratio: int,
    required_rate_of_return: int,
    perpetual_growth: int,
    periods: nat,
) -> Option<int> {
    let rate = percent_to_fraction(required_rate_of_return);
    match forecast_at(base, growth, margin, ratio, periods) {
        None => None,
        Some(last) => match (
            present_value(forecast_series(base, growth, margin, ratio, periods), rate, periods),
            discounted_terminal(
                last.free_cash_flow as int,
                rate,
                percent_to_fraction(perpetual_growth),
                periods,
            ),
        ) {
            (Some(explicit), Some(terminal)) => if fits_wide(explicit + terminal) {
                Some(explicit + terminal)
            } else {
                None
            },
            _ => None,
        },
    }
}

/// The fair value of one share, in whole currency units.
///
/// `cash` and `income` are the chronological series of a company with
/// `shares` shares outstanding. Growth and margin are taken from the
/// income series, the cash ratio from the fiscal years that both series
/// hold; the most recent of these years is where the forecast starts. The
/// aggregate present value, which is kept in millionths, is divided by the
/// number of shares and only then rounded towards zero.
///
/// An income series of fewer than two periods, or no fiscal year common to
/// both series, is a data failure. A figure that does not exist, or a
/// number of shares that is not positive, is an arithmetic failure.
pub open spec fn fair_value_spec(
    cash: Seq<AnnualCashFlow>,
    income: Seq<AnnualIncomeStatement>,
    shares: int,
    required_rate_of_return: int,
    perpetual_growth: int,
    periods: nat,
) -> Result<i64, ValuationError> {
    let pairs = joined(cash, income);
    if income.len() < 2 {
        Err(ValuationError::ProviderDataError)
    } else if !growth_defined(income) {
        Err(ValuationError::ArithmeticError)
    } else if pairs.len() == 0 {
        Err(ValuationError::ProviderDataError)
    } else if !ratios_defined(pairs) {
        Err(ValuationError::ArithmeticError)
    } else {
        match aggregate_present_value(
            company_income(pairs.last().0, pairs.last().1),
            average_growth(income),
            minimum_margin(income),
            minimum_ratio(pairs),
            required_rate_of_return,
            perpetual_growth,
            periods,
        ) {
            Some(total) => if shares > 0 && fits(trunc_div(total, shares * ONE)) {
                Ok(trunc_div(total, shares * ONE) as i64)
            } else {
                Err(ValuationError::ArithmeticError)
            },
            None => Err(ValuationError::ArithmeticError),
        }
    }
}

/// Turns a rate in percent into a fraction.
pub fn fraction_of_percent(percent: i64) -> (r: i64)
    ensures
        r == percent_to_fraction(percent as int),
{
    let r = percent.checked_div(100);
    assert(r is Some);
    r.unwrap()
}

/// A valuation by discounted free cash flow on its way: the figures that
/// the provider's answers gave, and, once adjusted, the estimates in
/// absolute currency units.
#[derive(Debug)]
pub struct DiscountedFreeCashflow<'a> {
    pub outstanding_shares: i64,
    /// The consensus estimates as the provider sent them.
    pub projections: &'a EstimateResponseList,
    /// The estimates in absolute units, the earliest period first; empty
    /// until [`DiscountedFreeCashflow::adjust_projected_estimates`] has run.
    pub adjusted: Estimate,
    /// The weighted average cost of capital, in percent.
    pub required_rate_of_return: i64,
}

impl<'a> DiscountedFreeCashflow<'a> {
    /// Joins the five answers of the provider and derives the required
    /// rate of return from them.
    ///
    /// If a request failed, so does this, with the failure of the first
    /// failed request in the order of the fields; nothing is built from the
    /// answers of the others. If the income statement or the balance sheet
    /// holds no period, this is a data failure. If the cost of capital does
    /// not exist, this is an arithmetic failure. Otherwise the valuation
    /// holds the number of shares, the estimates as they came, and the cost
    /// of capital.
    pub fn financials(responses: &'a Responses, presumed_market_growth: i64) -> (r: Result<
        DiscountedFreeCashflow<'a>,
        ValuationError,
    >)
        ensures
            responses.any_failed() ==> r is Err,
            responses.first_failure() is Some ==> r is Err && r->Err_0
                == responses.first_failure().unwrap(),
            !responses.any_failed() && !responses.complete() ==> r is Err && r->Err_0
                == ValuationError::ProviderDataError,
            responses.complete() && responses.capital_inputs(presumed_market_growth).wacc_spec()
                is None ==> r is Err && r->Err_0 == ValuationError::ArithmeticError,
            responses.complete() && responses.capital_inputs(presumed_market_growth).wacc_spec()
                is Some ==> r is Ok,
            r is Ok ==> ({
                let built = r->Ok_0;
                &&& built.outstanding_shares == responses.company_stats->Ok_0.shares_outstanding
                &&& built.projections == responses.estimates->Ok_0
                &&& built.adjusted.cash_flow_estimates@.len() == 0
                &&& built.adjusted.revenue_estimates@.len() == 0
                &&& built.required_rate_of_return == responses.capital_inputs(
                    presumed_market_growth,
                ).wacc_spec().unwrap()
            }),
    {
        let income_statement = match &responses.income_statement {
            Ok(answer) => answer,
            Err(e) => { return Err(*e); },
        };
        let balance = match &responses.balance_sheet {
            Ok(answer) => answer,
            Err(e) => { return Err(*e); },
        };
        let treasury_rate = match &responses.treasury_rate {
            Ok(answer) => *answer,
            Err(e) => { return Err(*e); },
        };
        let stats = match &responses.company_stats {
            Ok(answer) => answer,
            Err(e) => { return Err(*e); },
        };
        let projections = match &responses.estimates {
            Ok(answer) => answer,
            Err(e) => { return Err(*e); },
        };
        if income_statement.income.len() == 0 || balance.balancesheet.len() == 0 {
            return Err(ValuationError::ProviderDataError);
        }
        let income = &income_statement.income[0];
        let balance_sheet = &balance.balancesheet[0];
        let wacc = Wacc {
            interest_income: income.interest_income,
            long_term_debt: balance_sheet.long_term_debt,
            total_current_liabilities: balance_sheet.total_current_liabilities,
            pre_tax: income.pretax_income,
            income_tax: income.income_tax,
            ten_year_treasury_rate: treasury_rate,
            beta: stats.beta,
            market_cap: stats.marketcap,
            presumed_market_growth,
        };
        assert(wacc == responses.capital_inputs(presumed_market_growth));
        let required_rate_of_return = match wacc.generate_wacc() {
            Ok(rate) => rate,
            Err(e) => { return Err(e); },
        };
        Ok(
            DiscountedFreeCashflow {
                outstanding_shares: stats.shares_outstanding,
                projections,
                adjusted: Estimate {
                    cash_flow_estimates: Vec::new(),
                    revenue_estimates: Vec::new(),
                },
                required_rate_of_return,
            },
        )
    }

    /// Scales the consensus estimates to absolute currency units and puts
    /// them in chronological order.
    ///
    /// Succeeds exactly when every estimate can be normalized; nothing but
    /// the adjusted estimates changes. Otherwise the failure of the first
    /// estimate that cannot be normalized is returned.
    pub fn adjust_projected_estimates(self) -> (r: Result<
        DiscountedFreeCashflow<'a>,
        ValuationError,
    >)
        ensures
            match r {
                Ok(adjusted) => {
                    &&& adjusted.outstanding_shares == self.outstanding_shares
                    &&& adjusted.projections == self.projections
                    &&& adjusted.required_rate_of_return == self.required_rate_of_return
                    &&& normalized_ascending(
                        self.projections.estimates@,
                        self.outstanding_shares as int,
                        adjusted.adjusted.cash_flow_estimates@,
                        adjusted.adjusted.revenue_estimates@,
                    )
                },
                Err(err) => exists|i: int|
                    first_failure(self.projections.estimates@, self.outstanding_shares as int, i)
                        && #[trigger] record_at(
                        self.projections.estimates@,
                        self.outstanding_shares as int,
                        i,
                    ) == Err::<(AnnualCashFlow, AnnualIncomeStatement), _>(err),
            },
    {
        match Estimate::from_response(self.projections, self.outstanding_shares) {
            Err(err) => Err(err),
            Ok(adjusted) => Ok(
                DiscountedFreeCashflow {
                    outstanding_shares: self.outstanding_shares,
                    projections: self.projections,
                    adjusted,
                    required_rate_of_return: self.required_rate_of_return,
                },
            ),
        }
    }

    /// The fair value of one share, for free cash flow that grows by
    /// `perpetual_growth` percent for ever after the forecast.
    pub fn project_fair_value(&self, perpetual_growth: i64) -> (r: Result<i64, ValuationError>)
        ensures
            r == fair_value_spec(
                self.adjusted.cash_flow_estimates@,
                self.adjusted.revenue_estimates@,
                self.outstanding_shares as int,
                self.required_rate_of_return as int,
                perpetual_growth as int,
                FORECAST_PERIODS as nat,
            ),
    {
        let ghost cash = self.adjusted.cash_flow_estimates@;
        let ghost income = self.adjusted.revenue_estimates@;
        let ghost pairs = joined(cash, income);
        let (growth, margin) = match calc_average_growth(&self.adjusted.revenue_estimates) {
            Ok(profile) => profile,
            Err(e) => { return Err(e); },
        };
        let (records, ratio) = match equity_to_cash_flow(
            &self.adjusted.cash_flow_estimates,
            &self.adjusted.revenue_estimates,
        ) {
            Ok(found) => found,
            Err(e) => { return Err(e); },
        };
        proof {
            lemma_minimum_margin_unique(income, margin as int);
            lemma_minimum_ratio_unique(pairs, ratio as int);
            assert(records@.last() == company_income(pairs.last().0, pairs.last().1));
        }
        let ghost base = records@.last();
        let expected_return = fraction_of_percent(self.required_rate_of_return);
        let growth_for_ever = fraction_of_percent(perpetual_growth);
        let projections = match project_earnings(
            &records,
            growth,
            margin,
            ratio,
            FORECAST_PERIODS,
        ) {
            Ok(p) => p,
            Err(e) => { return Err(e); },
        };
        assert(projections@ =~= forecast_series(
            base,
            growth as int,
            margin as int,
            ratio as int,
            FORECAST_PERIODS as nat,
        ));
        let last_free_cash_flow = projections[FORECAST_PERIODS - 1].free_cash_flow;
        let explicit = match present_value_in_millionths(&projections, expected_return) {
            Some(v) => v,
            None => { return Err(ValuationError::ArithmeticError); },
        };
        let terminal = match terminal_value_in_millionths(
            last_free_cash_flow,
            expected_return,
            growth_for_ever,
            FORECAST_PERIODS,
        ) {
            Some(v) => v,
            None => { return Err(ValuationError::ArithmeticError); },
        };
        let sum = explicit.checked_add(terminal);
        if sum.is_none() || sum.unwrap() == i128::MIN {
            return Err(ValuationError::ArithmeticError);
        }
        let total: i128 = sum.unwrap();
        if self.outstanding_shares <= 0 {
            return Err(ValuationError::ArithmeticError);
        }
        let shares: i128 = self.outstanding_shares as i128;
        assert(0 < shares * ONE <= 0x7fff_ffff_ffff_ffff_ffff_ffff_ffff_ffff) by (nonlinear_arith)
            requires
                0 < shares <= 0x7fff_ffff_ffff_ffff,
                ONE == 1_000_000,
        ;
        let divisor: i128 = shares * ONE as i128;
        proof {
            lemma_trunc_div_bound(total as int, divisor as int);
        }
        let per_share = total.checked_div(divisor);
        assert(per_share == Some(trunc_div(total as int, divisor as int) as i128));
        let fair_value: i128 = per_share.unwrap();
        if fair_value < i64::MIN as i128 || fair_value > i64::MAX as i128 {
            return Err(ValuationError::ArithmeticError);
        }
        Ok(fair_value as i64)
    }
}

} // verus!
