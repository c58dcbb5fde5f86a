use fairvalue::error::ValuationError;
use fairvalue::models::{TreasuryRate, TreasuryRateResponse};
use fairvalue::provider::{check_status, validate_requested_period, Financials, FinancialsProvider,
    Period, IEX_BASE_URL};

#[test]
fn periods_have_the_names_of_the_provider() {
    assert_eq!(validate_requested_period(&Period::Annual), "annual");
    assert_eq!(validate_requested_period(&Period::Quarter), "quarter");
}

#[test]
fn provider_holds_address_and_token() {
    let provider = FinancialsProvider::new(
        Some("https://cloud.example.com/stable".to_string()),
        Some("demo-token".to_string()),
    )
    .unwrap();
    assert_eq!(provider.base_url, "https://cloud.example.com/stable");
    assert_eq!(provider.token, "demo-token");
}

#[test]
fn provider_without_token_or_address_is_a_configuration_failure() {
    assert_eq!(
        FinancialsProvider::new(Some("https://cloud.example.com".to_string()), None),
        Err(ValuationError::ConfigError)
    );
    assert_eq!(
        FinancialsProvider::new(None, Some("demo-token".to_string())),
        Err(ValuationError::ConfigError)
    );
    assert_eq!(FinancialsProvider::new(None, None), Err(ValuationError::ConfigError));
}

#[test]
fn financials_hold_what_they_were_made_of() {
    let period = Period::Annual;
    let financials = Financials::new("AAPL", &period, 2);
    assert_eq!(financials.ticker_symbol, "AAPL");
    assert_eq!(*financials.period, Period::Annual);
    assert_eq!(financials.last, 2);
}

#[test]
fn the_first_treasury_rate_is_the_latest() {
    let response = TreasuryRateResponse {
        rate: vec![TreasuryRate { value: 4_250_000 }, TreasuryRate { value: 4_100_000 }],
    };
    assert_eq!(response.latest(), Ok(4_250_000));
}

#[test]
fn no_treasury_rate_is_a_data_failure() {
    let response = TreasuryRateResponse { rate: vec![] };
    assert_eq!(response.latest(), Err(ValuationError::ProviderDataError));
}

fn provider() -> FinancialsProvider {
    FinancialsProvider::new(Some(IEX_BASE_URL.to_string()), Some("demo-token".to_string())).unwrap()
}

#[test]
fn addresses_of_the_series() {
    let period = Period::Annual;
    let financials = Financials::new("AAPL", &period, 2);
    assert_eq!(
        financials.cash_flow_url(&provider()),
        "https://cloud.iexapis.com/stable/stock/AAPL/cash-flow?period=annual&last=2&token=demo-token"
    );
    assert_eq!(
        financials.estimates_url(&provider()),
        "https://cloud.iexapis.com/stable/stock/AAPL/estimates?period=annual&last=2&token=demo-token"
    );
    assert_eq!(
        financials.income_statement_url(&provider()),
        "https://cloud.iexapis.com/stable/stock/AAPL/income?period=annual&last=2&token=demo-token"
    );
}

#[test]
fn addresses_follow_period_and_depth() {
    let period = Period::Quarter;
    let financials = Financials::new("MSFT", &period, -128);
    let provider =
        FinancialsProvider::new(Some("http://localhost".to_string()), Some("t".to_string()))
            .unwrap();
    assert_eq!(
        financials.income_statement_url(&provider),
        "http://localhost/stock/MSFT/income?period=quarter&last=-128&token=t"
    );
    let financials = Financials::new("MSFT", &period, 127);
    assert_eq!(
        financials.cash_flow_url(&provider),
        "http://localhost/stock/MSFT/cash-flow?period=quarter&last=127&token=t"
    );
}

#[test]
fn addresses_without_depth() {
    let period = Period::Annual;
    let financials = Financials::new("AAPL", &period, 2);
    assert_eq!(
        financials.company_stats_url(&provider()),
        "https://cloud.iexapis.com/stable/stock/AAPL/stats?token=demo-token"
    );
    assert_eq!(
        financials.balance_sheet_url(&provider()),
        "https://cloud.iexapis.com/stable/stock/AAPL/balance-sheet?period=annual&token=demo-token"
    );
    assert_eq!(
        financials.ten_year_treasury_rate_url(&provider()),
        "https://cloud.iexapis.com/stable/time-series/treasury/DGS10?token=demo-token"
    );
}

#[test]
fn only_codes_of_success_pass() {
    assert_eq!(check_status(200), Ok(()));
    assert_eq!(check_status(204), Ok(()));
    assert_eq!(check_status(299), Ok(()));
    assert_eq!(check_status(199), Err(ValuationError::ProviderStatusError));
    assert_eq!(check_status(300), Err(ValuationError::ProviderStatusError));
    assert_eq!(check_status(404), Err(ValuationError::ProviderStatusError));
    assert_eq!(check_status(500), Err(ValuationError::ProviderStatusError));
    assert_eq!(check_status(0), Err(ValuationError::ProviderStatusError));
}
