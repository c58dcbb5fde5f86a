//! Valuing one stock, and many stocks independently of each other.

use vstd::prelude::*;
use vstd::string::*;
use crate::error::{failure_name, ValuationError};
use crate::text::{decimal, decimal_text};
use crate::method::{fair_value_spec, DiscountedFreeCashflow, Responses, FORECAST_PERIODS,
    PERPETUAL_GROWTH};
use crate::models::{AnnualCashFlow, AnnualIncomeStatement};
use crate::normalize::{chronological_cash_flow, chronological_income, first_failure,
    lemma_chronological, lemma_first_failure_unique, normalization_failure, record_at};
use crate::wacc::PRESUMED_MARKET_GROWTH;

verus! {

/// The two long-run assumptions of a valuation, both in percent.
#[derive(Clone, Copy, Debug, PartialEq, Eq, Structural)]
pub struct Assumptions {
    /// The yearly growth of the equity market as a whole.
    pub presumed_market_growth: i64,
    /// The yearly growth of free cash flow after the forecast.
    pub perpetual_growth: i64,
}

impl Default for Assumptions {
    /// Ten percent market growth and two and a half percent perpetual growth.
    fn default() -> (r: Assumptions)
        ensures
            r.presumed_market_growth == PRESUMED_MARKET_GROWTH,
            r.perpetual_growth == PERPETUAL_GROWTH,
    {
        Assumptions {
            presumed_market_growth: PRESUMED_MARKET_GROWTH,
            perpetual_growth: PERPETUAL_GROWTH,
        }
    }
}

/// A stock and, once it has been valued, the fair value of one share.
#[derive(Clone, Debug, PartialEq, Eq)]
pub struct Stock {
    pub ticker: String,
    pub fair_value: Option<i64>,
}

/// The fair value per share that the provider's answers give under the
/// given assumptions, or the failure in which the valuation ends.
///
/// A failed request fails the valuation; so does an answer without income
/// statement or balance sheet, a cost of capital that does not exist, and
/// an estimate that cannot be normalized. Otherwise the value is that of
/// [`fair_value_spec`] on the normalized estimates in chronological order,
/// discounted at the cost of capital.
pub open spec fn valuation_spec(responses: &Responses, assumptions: &Assumptions) -> Result<
    i64,
    ValuationError,
> {
    match responses.first_failure() {
        Some(failure) => Err(failure),
        None => if !responses.complete() {
            Err(ValuationError::ProviderDataError)
        } else {
            let estimates = responses.estimates->Ok_0.estimates@;
            let shares = responses.company_stats->Ok_0.shares_outstanding as int;
            match responses.capital_inputs(assumptions.presumed_market_growth).wacc_spec() {
                None => Err(ValuationError::ArithmeticError),
                Some(rate) => match normalization_failure(estimates, shares) {
                    Some(failure) => Err(failure),
                    None => fair_value_spec(
                        chronological_cash_flow(estimates, shares),
                        chronological_income(estimates, shares),
                        shares,
                        rate,
                        assumptions.perpetual_growth as int,
                        FORECAST_PERIODS as nat,
                    ),
                },
            }
        },
    }
}

/// If one of the five requests failed, the valuation fails, whatever the
/// other four answered; there is no fair value then.
pub proof fn lemma_failed_request_fails_valuation(
    responses: &Responses,
    assumptions: &Assumptions,
)
    requires
        responses.any_failed(),
    ensures
        valuation_spec(responses, assumptions) is Err,
        responses.first_failure() is Some,
        valuation_spec(responses, assumptions) == Err::<i64, _>(
            responses.first_failure().unwrap(),
        ),
{
}

/// Whether `outcome` is what the valuation of the stock `ticker` from
/// `responses` must end in.
pub open spec fn is_outcome(
    outcome: Result<Stock, ValuationError>,
    ticker: String,
    responses: &Responses,
    assumptions: &Assumptions,
) -> bool {
    match outcome {
        Ok(stock) => {
            &&& stock.ticker == ticker
            &&& valuation_spec(responses, assumptions) is Ok
            &&& stock.fair_value == Some(valuation_spec(responses, assumptions)->Ok_0)
        },
        Err(failure) => valuation_spec(responses, assumptions) == Err::<i64, _>(failure),
    }
}

impl Stock {
    /// A stock that has not been valued yet.
    pub fn new(ticker: String) -> (r: Stock)
        ensures
            r.ticker == ticker,
            r.fair_value is None,
    {
        Stock { ticker, fair_value: None }
    }

    /// Values the stock from the provider's answers by discounted free
    /// cash flow.
    ///
    /// The outcome is the stock with its fair value per share, or the
    /// failure of the valuation, as [`valuation_spec`] says. If any of the
    /// five requests failed, no value is computed from the others.
    pub fn perform_discounted_free_cash_flow(
        self,
        responses: &Responses,
        assumptions: &Assumptions,
    ) -> (r: Result<Stock, ValuationError>)
        ensures
            is_outcome(r, self.ticker, responses, assumptions),
            responses.any_failed() ==> r is Err,
    {
        let built = match DiscountedFreeCashflow::financials(
            responses,
            assumptions.presumed_market_growth,
        ) {
            Ok(b) => b,
            Err(e) => { return Err(e); },
        };
        let ghost estimates = responses.estimates->Ok_0.estimates@;
        let ghost shares = responses.company_stats->Ok_0.shares_outstanding as int;
        let adjusted = match built.adjust_projected_estimates() {
            Ok(a) => a,
            Err(e) => {
                proof {
                    let i = choose|i: int|
                        first_failure(estimates, shares, i) && #[trigger] record_at(
                            estimates,
                            shares,
                            i,
                        ) == Err::<(AnnualCashFlow, AnnualIncomeStatement), _>(e);
                    let j = choose|j: int| first_failure(estimates, shares, j);
                    lemma_first_failure_unique(estimates, shares, i, j);
                }
                return Err(e);
            },
        };
        proof {
            lemma_chronological(
                estimates,
                shares,
                adjusted.adjusted.cash_flow_estimates@,
                adjusted.adjusted.revenue_estimates@,
            );
        }
        match adjusted.project_fair_value(assumptions.perpetual_growth) {
            Ok(value) => Ok(Stock { ticker: self.ticker, fair_value: Some(value) }),
            Err(e) => Err(e),
        }
    }
}

/// The line that reports the outcome of a valuation: `Fair value for
/// <ticker> is <value>` for a stock with a fair value, and `No fair value
/// for <ticker>: <reason>` otherwise.
pub open spec fn report_text(ticker: Seq<char>, outcome: Result<Stock, ValuationError>) -> Seq<
    char,
> {
    match outcome {
        Ok(stock) => match stock.fair_value {
            Some(value) => "Fair value for "@ + ticker + " is "@ + decimal_text(value as int),
            None => "No fair value for "@ + ticker + ": "@ + "it has not been valued"@,
        },
        Err(failure) => "No fair value for "@ + ticker + ": "@ + failure_name(failure),
    }
}

/// Writes the line that reports the outcome of the valuation of a stock.
pub fn report(ticker: &str, outcome: &Result<Stock, ValuationError>) -> (line: String)
    ensures
        line@ == report_text(ticker@, *outcome),
{
    match outcome {
        Ok(stock) => match stock.fair_value {
            Some(value) => {
                let number = decimal(value);
                String::from_str("Fair value for ").concat(ticker).concat(" is ").concat(
                    number.as_str(),
                )
            },
            None => String::from_str("No fair value for ").concat(ticker).concat(": ").concat(
                "it has not been valued",
            ),
        },
        Err(failure) => String::from_str("No fair value for ").concat(ticker).concat(": ").concat(
            failure.message(),
        ),
    }
}

/// One stock to value, with what the provider answered about it.
#[derive(Debug)]
pub struct Evaluation {
    pub ticker: String,
    pub responses: Responses,
}

/// Values every stock of a batch on its own.
///
/// The outcomes stand in the order of the batch. Each is what the
/// valuation of its stock alone ends in: neither the failure nor the
/// success of one stock changes the outcome of another.
pub fn evaluate_batch(batch: &Vec<Evaluation>, assumptions: &Assumptions) -> (outcomes: Vec<
    Result<Stock, ValuationError>,
>)
    ensures
        outcomes@.len() == batch@.len(),
        forall|i: int|
            0 <= i < batch@.len() ==> is_outcome(
                #[trigger] outcomes@[i],
                batch@[i].ticker,
                &batch@[i].responses,
                assumptions,
            ),
{
    let n: usize = batch.len();
    let mut outcomes: Vec<Result<Stock, ValuationError>> = Vec::new();
    let mut i: usize = 0;
    while i < n
        invariant
            i <= n == batch@.len(),
            outcomes@.len() == i,
            forall|j: int|
                0 <= j < i ==> is_outcome(
                    #[trigger] outcomes@[j],
                    batch@[j].ticker,
                    &batch@[j].responses,
                    assumptions,
                ),
        decreases n - i,
    {
        let stock = Stock::new(batch[i].ticker.clone());
        let outcome = stock.perform_discounted_free_cash_flow(&batch[i].responses, assumptions);
        outcomes.push(outcome);
        i += 1;
    }
    outcomes
}

} // verus!
