//! What a request to the data provider is made of: the provider's address
//! and credentials, and the stock, granularity and depth that are asked for.

use vstd::prelude::*;
use vstd::string::*;
use crate::error::ValuationError;
use crate::models::TreasuryRateResponse;
use crate::text::{decimal, decimal_text};

verus! {

/// The granularity of a financial series.
#[derive(Clone, Copy, Debug, PartialEq, Eq, Structural)]
pub enum Period {
    Annual,
    Quarter,
}

/// The word by which the provider knows a period.
pub open spec fn period_name(period: Period) -> Seq<char> {
    match period {
        Period::Annual => "annual"@,
        Period::Quarter => "quarter"@,
    }
}

/// The word to put into a request for the given period.
pub fn validate_requested_period(requested_period: &Period) -> (period: &'static str)
    ensures
        period@ == period_name(*requested_period),
{
    match requested_period {
        Period::Annual => "annual",
        Period::Quarter => "quarter",
    }
}

/// The address under which the provider serves its stable interface.
pub const IEX_BASE_URL: &'static str = "https://cloud.iexapis.com/stable";

/// Whether the provider's status code reports success: a code from 200 to
/// 299 does, every other code is a status failure.
pub fn check_status(status: u16) -> (r: Result<(), ValuationError>)
    ensures
        200 <= status < 300 <==> r is Ok,
        r is Err ==> r->Err_0 == ValuationError::ProviderStatusError,
{
    if 200 <= status && status < 300 {
        Ok(())
    } else {
        Err(ValuationError::ProviderStatusError)
    }
}

/// The address of the provider and the token that requests are signed with.
#[derive(Clone, Debug, PartialEq, Eq)]
pub struct FinancialsProvider {
    pub base_url: String,
    pub token: String,
}

impl FinancialsProvider {
    /// The provider's configuration, from the two settings as they were
    /// found. A missing base URL or a missing token is a configuration
    /// failure; otherwise the configuration holds both as given.
    pub fn new(base_url: Option<String>, token: Option<String>) -> (r: Result<
        FinancialsProvider,
        ValuationError,
    >)
        ensures
            base_url is Some && token is Some <==> r is Ok,
            r is Ok ==> r->Ok_0.base_url == base_url->Some_0 && r->Ok_0.token == token->Some_0,
            r is Err ==> r->Err_0 == ValuationError::ConfigError,
    {
        match (base_url, token) {
            (Some(base_url), Some(token)) => Ok(FinancialsProvider { base_url, token }),
            _ => Err(ValuationError::ConfigError),
        }
    }
}

/// The requests of one valuation: the stock, the granularity, and how many
/// periods back the series should reach.
#[derive(Clone, Copy, Debug)]
pub struct Financials<'a> {
    pub ticker_symbol: &'a str,
    pub period: &'a Period,
    pub last: i8,
}

impl<'a> Financials<'a> {
    /// The requests for `last` periods of the given granularity of a stock.
    pub fn new(ticker_symbol: &'a str, period: &'a Period, last: i8) -> (r: Financials<'a>)
        ensures
            r.ticker_symbol == ticker_symbol,
            r.period == period,
            r.last == last,
    {
        Financials { ticker_symbol, period, last }
    }
}

/// The address of a series of a stock:
/// `<base>/stock/<ticker>/<series>?period=<period>&last=<last>&token=<token>`.
pub open spec fn series_url(
    provider: FinancialsProvider,
    ticker: Seq<char>,
    series: Seq<char>,
    period: Period,
    last: int,
) -> Seq<char> {
    provider.base_url@ + "/stock/"@ + ticker + "/"@ + series + "?period="@ + period_name(period)
        + "&last="@ + decimal_text(last) + "&token="@ + provider.token@
}

impl<'a> Financials<'a> {
    fn series(&self, provider: &FinancialsProvider, series: &str) -> (url: String)
        ensures
            url@ == series_url(
                *provider,
                self.ticker_symbol@,
                series@,
                *self.period,
                self.last as int,
            ),
    {
        let last = decimal(self.last as i64);
        String::from_str(provider.base_url.as_str()).concat("/stock/").concat(
            self.ticker_symbol,
        ).concat("/").concat(series).concat("?period=").concat(
            validate_requested_period(self.period),
        ).concat("&last=").concat(last.as_str()).concat("&token=").concat(
            provider.token.as_str(),
        )
    }

    /// The address of the cash-flow statements.
    pub fn cash_flow_url(&self, provider: &FinancialsProvider) -> (url: String)
        ensures
            url@ == series_url(
                *provider,
                self.ticker_symbol@,
                "cash-flow"@,
                *self.period,
                self.last as int,
            ),
    {
        self.series(provider, "cash-flow")
    }

    /// The address of the consensus estimates.
    pub fn estimates_url(&self, provider: &FinancialsProvider) -> (url: String)
        ensures
            url@ == series_url(
                *provider,
                self.ticker_symbol@,
                "estimates"@,
                *self.period,
                self.last as int,
            ),
    {
        self.series(provider, "estimates")
    }

    /// The address of the income statements.
    pub fn income_statement_url(&self, provider: &FinancialsProvider) -> (url: String)
        ensures
            url@ == series_url(
                *provider,
                self.ticker_symbol@,
                "income"@,
                *self.period,
                self.last as int,
            ),
    {
        self.series(provider, "income")
    }

    /// The address of the company's statistics:
    /// `<base>/stock/<ticker>/stats?token=<token>`.
    pub fn company_stats_url(&self, provider: &FinancialsProvider) -> (url: String)
        ensures
            url@ == provider.base_url@ + "/stock/"@ + self.ticker_symbol@ + "/stats?token="@
                + provider.token@,
    {
        String::from_str(provider.base_url.as_str()).concat("/stock/").concat(
            self.ticker_symbol,
        ).concat("/stats?token=").concat(provider.token.as_str())
    }

    /// The address of the balance sheets:
    /// `<base>/stock/<ticker>/balance-sheet?period=<period>&token=<token>`.
    pub fn balance_sheet_url(&self, provider: &FinancialsProvider) -> (url: String)
        ensures
            url@ == provider.base_url@ + "/stock/"@ + self.ticker_symbol@
                + "/balance-sheet?period="@ + period_name(*self.period) + "&token="@
                + provider.token@,
    {
        String::from_str(provider.base_url.as_str()).concat("/stock/").concat(
            self.ticker_symbol,
        ).concat("/balance-sheet?period=").concat(validate_requested_period(self.period)).concat(
            "&token=",
        ).concat(provider.token.as_str())
    }

    /// The address of the ten-year treasury rate:
    /// `<base>/time-series/treasury/DGS10?token=<token>`.
    pub fn ten_year_treasury_rate_url(&self, provider: &FinancialsProvider) -> (url: String)
        ensures
            url@ == provider.base_url@ + "/time-series/treasury/DGS10?token="@ + provider.token@,
    {
        String::from_str(provider.base_url.as_str()).concat(
            "/time-series/treasury/DGS10?token=",
        ).concat(provider.token.as_str())
    }
}

impl TreasuryRateResponse {
    /// The most recent treasury rate of an answer, which is its first; an
    /// answer without rates is a data failure.
    pub fn latest(&self) -> (r: Result<i64, ValuationError>)
        ensures
            self.rate@.len() == 0 <==> r == Err::<i64, _>(ValuationError::ProviderDataError),
            self.rate@.len() > 0 <==> r == Ok::<_, ValuationError>(self.rate@[0].value),
    {
        if self.rate.len() == 0 {
            Err(ValuationError::ProviderDataError)
        } else {
            Ok(self.rate[0].value)
        }
    }
}

} // verus!
