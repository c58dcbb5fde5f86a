//! The discounting engine: an explicit forecast of a few fiscal years, its
//! present value, and the present value of everything after it.
//!
//! Rates handed to the discounting functions are fixed-point fractions
//! (`0.08` for eight percent); the growth, margin and ratio that drive the
//! forecast are fixed-point percentages.
//!
//! Present values are carried in millionths of a currency unit, in 128
//! bits, and rounded to whole units once, at the end. Discounting over
//! `k` periods divides by the `k`-th power of one plus the rate in one
//! step. It multiplies the amount by the `k`-th power of a million first,
//! so an amount can be discounted only as far as that product can be held.

use vstd::prelude::*;
use crate::error::{amount_or_failure, ValuationError};
use crate::fixed::{fits, fits_wide, lemma_trunc_div_bound, lemma_trunc_div_twice, mul_div,
    mul_div_spec, mul_div_wide, same_wide, trunc_div, HUNDRED, ONE};
use crate::models::CompanyIncome;

verus! {

/// The fiscal year that follows `prev`, forecast from it.
///
/// Revenue grows by `growth` percent; net income is `margin` percent of
/// revenue; free cash flow is `ratio` percent of net income. Each figure is
/// rounded towards zero. There is no next period if a figure, or the
/// fiscal year, cannot be represented.
pub open spec fn next_period(prev: CompanyIncome, growth: int, margin: int, ratio: int) -> Option<
    CompanyIncome,
> {
    match mul_div_spec(prev.revenue as int, HUNDRED + growth, HUNDRED as int) {
        None => None,
        Some(revenue) => match mul_div_spec(revenue, margin, HUNDRED as int) {
            None => None,
            Some(net_income) => match mul_div_spec(net_income, ratio, HUNDRED as int) {
                None => None,
                Some(free_cash_flow) => if prev.fiscal_year < u16::MAX {
                    Some(
                        CompanyIncome {
                            revenue: revenue as i64,
                            net_income: net_income as i64,
                            free_cash_flow: free_cash_flow as i64,
                            fiscal_year: (prev.fiscal_year + 1) as u16,
                        },
                    )
                } else {
                    None
                },
            },
        },
    }
}

/// The period `k` fiscal years after `base`; `base` itself for `k == 0`.
pub open spec fn forecast_at(base: CompanyIncome, growth: int, margin: int, ratio: int, k: nat)
    -> Option<CompanyIncome>
    decreases k,
{
    if k == 0 {
        Some(base)
    } else {
        match forecast_at(base, growth, margin, ratio, (k - 1) as nat) {
            Some(prev) => next_period(prev, growth, margin, ratio),
            None => None,
        }
    }
}

/// Whether `periods` holds the forecast of the fiscal years after `base`,
/// one record per year, the earliest first.
pub open spec fn is_forecast(
    base: CompanyIncome,
    growth: int,
    margin: int,
    ratio: int,
    periods: Seq<CompanyIncome>,
) -> bool {
    forall|k: int|
        0 <= k < periods.len() ==> forecast_at(base, growth, margin, ratio, (k + 1) as nat)
            == Some(#[trigger] periods[k])
}

fn forecast_next(prev: &CompanyIncome, growth: i64, margin: i64, ratio: i64) -> (r: Option<
    CompanyIncome,
>)
    ensures
        r == next_period(*prev, growth as int, margin as int, ratio as int),
{
    assert((HUNDRED + growth) * prev.revenue == prev.revenue * (HUNDRED + growth))
        by (nonlinear_arith);
    let revenue = match mul_div_wide(HUNDRED as i128 + growth as i128, prev.revenue, HUNDRED) {
        Some(v) => v,
        None => { return None; },
    };
    let net_income = match mul_div(revenue, margin, HUNDRED) {
        Some(v) => v,
        None => { return None; },
    };
    let free_cash_flow = match mul_div(net_income, ratio, HUNDRED) {
        Some(v) => v,
        None => { return None; },
    };
    if prev.fiscal_year == u16::MAX {
        return None;
    }
    Some(CompanyIncome { revenue, net_income, free_cash_flow, fiscal_year: prev.fiscal_year + 1 })
}

/// Forecasts `years` fiscal years beyond the last record of a
/// chronological series.
///
/// The result holds one record per forecast year, the earliest first, each
/// derived from the one before it as [`next_period`] says.
///
/// An empty series is a data failure. A figure or a fiscal year that
/// cannot be represented is an arithmetic failure.
pub fn project_earnings(
    company_income: &Vec<CompanyIncome>,
    average_revenue_growth: i64,
    least_net_income_margin: i64,
    average_annual_equity_to_cash: i64,
    years: usize,
) -> (r: Result<Vec<CompanyIncome>, ValuationError>)
    ensures
        company_income@.len() == 0 <==> r == Err::<Vec<CompanyIncome>, _>(
            ValuationError::ProviderDataError,
        ),
        company_income@.len() > 0 && forecast_at(
            company_income@.last(),
            average_revenue_growth as int,
            least_net_income_margin as int,
            average_annual_equity_to_cash as int,
            years as nat,
        ) is None <==> r == Err::<Vec<CompanyIncome>, _>(ValuationError::ArithmeticError),
        company_income@.len() > 0 && forecast_at(
            company_income@.last(),
            average_revenue_growth as int,
            least_net_income_margin as int,
            average_annual_equity_to_cash as int,
            years as nat,
        ) is Some <==> r is Ok,
        r is Ok ==> r->Ok_0@.len() == years && is_forecast(
            company_income@.last(),
            average_revenue_growth as int,
            least_net_income_margin as int,
            average_annual_equity_to_cash as int,
            r->Ok_0@,
        ),
        r is Ok ==> forall|k: int|
            0 <= k < years ==> (#[trigger] r->Ok_0@[k]).fiscal_year
                == company_income@.last().fiscal_year + k + 1,
{
    let n: usize = company_income.len();
    if n == 0 {
        return Err(ValuationError::ProviderDataError);
    }
    let ghost base = company_income@.last();
    let ghost growth = average_revenue_growth as int;
    let ghost margin = least_net_income_margin as int;
    let ghost ratio = average_annual_equity_to_cash as int;
    let mut projections: Vec<CompanyIncome> = Vec::new();
    let mut prev: CompanyIncome = company_income[n - 1];
    let mut k: usize = 0;
    while k < years
        invariant
            k <= years,
            company_income@.len() > 0,
            base == company_income@.last(),
            growth == average_revenue_growth as int,
            margin == least_net_income_margin as int,
            ratio == average_annual_equity_to_cash as int,
            projections@.len() == k,
            forecast_at(base, growth, margin, ratio, k as nat) == Some(prev),
            is_forecast(base, growth, margin, ratio, projections@),
            prev.fiscal_year == base.fiscal_year + k,
            forall|j: int|
                0 <= j < k ==> (#[trigger] projections@[j]).fiscal_year == base.fiscal_year + j + 1,
        decreases years - k,
    {
        match forecast_next(
            &prev,
            average_revenue_growth,
            least_net_income_margin,
            average_annual_equity_to_cash,
        ) {
            None => {
                proof {
                    lemma_forecast_stays_undefined(base, growth, margin, ratio, (k + 1) as nat, years as nat);
                }
                return Err(ValuationError::ArithmeticError);
            },
            Some(next) => {
                assert(forecast_at(base, growth, margin, ratio, (k + 1) as nat) == Some(next));
                projections.push(next);
                prev = next;
            },
        }
        k += 1;
    }
    Ok(projections)
}

/// Once a forecast year does not exist, no later one does.
pub proof fn lemma_forecast_stays_undefined(
    base: CompanyIncome,
    growth: int,
    margin: int,
    ratio: int,
    k: nat,
    later: nat,
)
    requires
        k <= later,
        forecast_at(base, growth, margin, ratio, k) is None,
    ensures
        forecast_at(base, growth, margin, ratio, later) is None,
    decreases later,
{
    if k < later {
        lemma_forecast_stays_undefined(base, growth, margin, ratio, k, (later - 1) as nat);
    }
}

/// Each forecast year is the base year plus its distance from it, so the
/// fiscal years of a forecast rise by exactly one from record to record.
pub proof fn lemma_forecast_fiscal_years(
    base: CompanyIncome,
    growth: int,
    margin: int,
    ratio: int,
    k: nat,
)
    requires
        forecast_at(base, growth, margin, ratio, k) is Some,
    ensures
        forecast_at(base, growth, margin, ratio, k).unwrap().fiscal_year == base.fiscal_year + k,
        k > 0 ==> forecast_at(base, growth, margin, ratio, (k - 1) as nat) is Some
            && forecast_at(base, growth, margin, ratio, k).unwrap().fiscal_year == forecast_at(
            base,
            growth,
            margin,
            ratio,
            (k - 1) as nat,
        ).unwrap().fiscal_year + 1,
    decreases k,
{
    if k > 0 {
        lemma_forecast_fiscal_years(base, growth, margin, ratio, (k - 1) as nat);
    }
}

/// A number raised to a power.
pub open spec fn power(base: int, exponent: nat) -> int
    decreases exponent,
{
    if exponent == 0 {
        1
    } else {
        base * power(base, (exponent - 1) as nat)
    }
}

/// An amount due in `periods` periods, valued today: the amount divided by
/// one plus the rate to the power of `periods`, rounded towards zero once.
///
/// `rate` is a fixed-point fraction; the amount may be in any unit, and
/// its value today is in the same unit. There is no value where one plus
/// the rate is zero, or where the amount times a million to the power of
/// `periods` is too wide to compute with.
pub open spec fn discounted(value: int, rate: int, periods: nat) -> Option<int> {
    if power(ONE + rate, periods) != 0 && fits_wide(value * power(ONE as int, periods)) {
        Some(trunc_div(value * power(ONE as int, periods), power(ONE + rate, periods)))
    } else {
        None
    }
}

/// The value today, in millionths of a currency unit, of the free cash
/// flows of the first `k` forecast periods, where period number `j`,
/// counted from one, is due in `j` periods.
pub open spec fn present_value(flows: Seq<CompanyIncome>, rate: int, k: nat) -> Option<int>
    decreases k,
{
    if k == 0 {
        Some(0)
    } else {
        match (
            present_value(flows, rate, (k - 1) as nat),
            discounted(flows[k - 1].free_cash_flow * ONE, rate, k),
        ) {
            (Some(sum), Some(value)) => if fits_wide(sum + value) {
                Some(sum + value)
            } else {
                None
            },
            _ => None,
        }
    }
}

/// The value, at the end of the forecast and in millionths of a currency
/// unit, of all free cash flow after it, which grows by `growth` for ever:
/// the last free cash flow times one plus the growth, divided by the
/// spread between rate and growth. It exists only for a positive spread.
pub open spec fn terminal_value(last_free_cash_flow: int, rate: int, growth: int) -> Option<int> {
    if rate - growth > 0 && fits_wide(last_free_cash_flow * (ONE + growth) * ONE) {
        Some(trunc_div(last_free_cash_flow * (ONE + growth) * ONE, rate - growth))
    } else {
        None
    }
}

/// The terminal value, valued today from `periods` periods ahead, in
/// millionths of a currency unit.
pub open spec fn discounted_terminal(
    last_free_cash_flow: int,
    rate: int,
    growth: int,
    periods: nat,
) -> Option<int> {
    match terminal_value(last_free_cash_flow, rate, growth) {
        Some(terminal) => discounted(terminal, rate, periods),
        None => None,
    }
}

/// An amount, where it fits in `i64`.
pub open spec fn narrow(amount: Option<int>) -> Option<int> {
    match amount {
        Some(v) => if fits(v) {
            Some(v)
        } else {
            None
        },
        None => None,
    }
}

/// An amount in millionths as whole currency units, rounded towards zero,
/// where they fit in `i64`.
pub open spec fn whole_units(millionths: Option<int>) -> Option<int> {
    match millionths {
        Some(m) => narrow(Some(trunc_div(m, ONE as int))),
        None => None,
    }
}

/// A power of zero is zero, and a power of another number is not.
proof fn lemma_power_zero(base: int, exponent: nat)
    ensures
        base != 0 ==> power(base, exponent) != 0,
        base == 0 && exponent > 0 ==> power(base, exponent) == 0,
    decreases exponent,
{
    if exponent > 0 {
        lemma_power_zero(base, (exponent - 1) as nat);
        let rest = power(base, (exponent - 1) as nat);
        assert(base != 0 && rest != 0 ==> base * rest != 0) by (nonlinear_arith);
        assert(base == 0 ==> base * rest == 0) by (nonlinear_arith);
    }
}

/// An amount that is too wide after `fewer` scalings by a million is too
/// wide after more.
proof fn lemma_scaled_stays_wide(value: int, fewer: nat, more: nat)
    requires
        fewer <= more,
        !fits_wide(value * power(ONE as int, fewer)),
    ensures
        !fits_wide(value * power(ONE as int, more)),
    decreases more,
{
    if fewer < more {
        lemma_scaled_stays_wide(value, fewer, (more - 1) as nat);
        let rest = power(ONE as int, (more - 1) as nat);
        assert(value * (1_000_000 * rest) == (value * rest) * 1_000_000) by (nonlinear_arith);
    }
}

/// Once the present value of the first `k` periods does not exist, that of
/// more periods does not either.
proof fn lemma_present_value_stays_undefined(
    flows: Seq<CompanyIncome>,
    rate: int,
    k: nat,
    later: nat,
)
    requires
        k <= later,
        present_value(flows, rate, k) is None,
    ensures
        present_value(flows, rate, later) is None,
    decreases later,
{
    if k < later {
        lemma_present_value_stays_undefined(flows, rate, k, (later - 1) as nat);
    }
}

/// Values an amount due in `periods` periods today, in the unit of the
/// amount; `None` exactly where [`discounted`] has no value.
pub fn discount_wide(value: i128, rate: i64, periods: usize) -> (r: Option<i128>)
    ensures
        same_wide(r, discounted(value as int, rate as int, periods as nat)),
        r is Some ==> fits_wide(r->Some_0 as int),
{
    let factor: i128 = ONE as i128 + rate as i128;
    proof {
        lemma_power_zero(factor as int, periods as nat);
    }
    if factor == 0 && periods > 0 {
        return None;
    }
    if value == i128::MIN {
        proof {
            lemma_scaled_stays_wide(value as int, 0, periods as nat);
        }
        return None;
    }
    let mut numerator: i128 = value;
    let mut j: usize = 0;
    while j < periods
        invariant
            j <= periods,
            numerator == value * power(ONE as int, j as nat),
            fits_wide(numerator as int),
        decreases periods - j,
    {
        assert(value * (1_000_000 * power(ONE as int, j as nat)) == (value * power(
            ONE as int,
            j as nat,
        )) * 1_000_000) by (nonlinear_arith);
        let scaled = numerator.checked_mul(ONE as i128);
        if scaled.is_none() || scaled.unwrap() == i128::MIN {
            proof {
                lemma_scaled_stays_wide(value as int, (j + 1) as nat, periods as nat);
            }
            return None;
        }
        numerator = scaled.unwrap();
        j += 1;
    }
    let mut quotient: i128 = numerator;
    let mut j: usize = 0;
    while j < periods
        invariant
            j <= periods,
            factor == ONE + rate,
            factor != 0 || periods == 0,
            power(factor as int, j as nat) != 0,
            quotient == trunc_div(numerator as int, power(factor as int, j as nat)),
            fits_wide(numerator as int),
            fits_wide(quotient as int),
        decreases periods - j,
    {
        proof {
            let divided = power(factor as int, j as nat);
            lemma_trunc_div_twice(numerator as int, divided, factor as int);
            assert(divided * factor == factor * divided) by (nonlinear_arith);
            lemma_trunc_div_bound(quotient as int, factor as int);
        }
        let next = quotient.checked_div(factor);
        assert(next == Some(trunc_div(quotient as int, factor as int) as i128));
        quotient = next.unwrap();
        j += 1;
    }
    Some(quotient)
}

/// Values an amount of whole currency units due in `periods` periods
/// today: the amount divided by one plus `rate` to the power of `periods`,
/// rounded towards zero once.
///
/// Fails with an arithmetic failure exactly when one plus the rate is zero
/// or a figure cannot be represented.
pub fn discount(value: i64, rate: i64, periods: usize) -> (r: Result<i64, ValuationError>)
    ensures
        r == amount_or_failure(narrow(discounted(value as int, rate as int, periods as nat))),
{
    match discount_wide(value as i128, rate, periods) {
        Some(v) => to_amount(v),
        None => Err(ValuationError::ArithmeticError),
    }
}

fn to_amount(value: i128) -> (r: Result<i64, ValuationError>)
    ensures
        r == amount_or_failure(narrow(Some(value as int))),
{
    if value < i64::MIN as i128 || value > i64::MAX as i128 {
        Err(ValuationError::ArithmeticError)
    } else {
        Ok(value as i64)
    }
}

fn to_whole_units(millionths: i128) -> (r: Result<i64, ValuationError>)
    requires
        fits_wide(millionths as int),
    ensures
        r == amount_or_failure(whole_units(Some(millionths as int))),
{
    proof {
        lemma_trunc_div_bound(millionths as int, ONE as int);
    }
    let units = millionths.checked_div(ONE as i128);
    assert(units == Some(trunc_div(millionths as int, ONE as int) as i128));
    to_amount(units.unwrap())
}

/// The value today, in millionths of a currency unit, of the free cash
/// flows of a forecast, the first record due in one period, the second in
/// two, and so on, at the rate `expected_return`; `None` exactly where
/// [`present_value`] has no value.
pub fn present_value_in_millionths(projections: &Vec<CompanyIncome>, expected_return: i64) -> (r:
    Option<i128>)
    ensures
        same_wide(
            r,
            present_value(projections@, expected_return as int, projections@.len()),
        ),
        r is Some ==> fits_wide(r->Some_0 as int),
{
    let n: usize = projections.len();
    let ghost rate = expected_return as int;
    let mut total: i128 = 0;
    let mut k: usize = 0;
    while k < n
        invariant
            k <= n == projections@.len(),
            rate == expected_return as int,
            present_value(projections@, rate, k as nat) == Some(total as int),
            fits_wide(total as int),
        decreases n - k,
    {
        let flow: i128 = projections[k].free_cash_flow as i128;
        assert(-0x7fff_ffff_ffff_ffff_ffff_ffff_ffff_ffff <= flow * ONE
            <= 0x7fff_ffff_ffff_ffff_ffff_ffff_ffff_ffff) by (nonlinear_arith)
            requires
                -0x8000_0000_0000_0000 <= flow <= 0x7fff_ffff_ffff_ffff,
                ONE == 1_000_000,
        ;
        let amount: i128 = flow * ONE as i128;
        let value = discount_wide(amount, expected_return, k + 1);
        let sum = match value {
            Some(v) => total.checked_add(v),
            None => None,
        };
        if sum.is_none() || sum.unwrap() == i128::MIN {
            proof {
                lemma_present_value_stays_undefined(projections@, rate, (k + 1) as nat, n as nat);
            }
            return None;
        }
        total = sum.unwrap();
        k += 1;
    }
    Some(total)
}

/// The value today, in millionths of a currency unit, of all free cash
/// flow after a forecast of `periods` periods that ends with
/// `last_free_cash_flow`; `None` exactly where [`discounted_terminal`] has
/// no value.
pub fn terminal_value_in_millionths(
    last_free_cash_flow: i64,
    expected_return: i64,
    perpetual_growth: i64,
    periods: usize,
) -> (r: Option<i128>)
    ensures
        same_wide(
            r,
            discounted_terminal(
                last_free_cash_flow as int,
                expected_return as int,
                perpetual_growth as int,
                periods as nat,
            ),
        ),
        r is Some ==> fits_wide(r->Some_0 as int),
{
    let spread: i128 = expected_return as i128 - perpetual_growth as i128;
    if spread <= 0 {
        return None;
    }
    let last: i128 = last_free_cash_flow as i128;
    let grown: i128 = ONE as i128 + perpetual_growth as i128;
    assert(-0x7fff_ffff_ffff_ffff_ffff_ffff_ffff_ffff <= last * grown
        <= 0x7fff_ffff_ffff_ffff_ffff_ffff_ffff_ffff) by (nonlinear_arith)
        requires
            -0x8000_0000_0000_0000 <= last <= 0x7fff_ffff_ffff_ffff,
            -0x8000_0000_0000_0000 <= grown <= 0x8000_0000_000f_4240,
    ;
    let scaled = (last * grown).checked_mul(ONE as i128);
    if scaled.is_none() || scaled.unwrap() == i128::MIN {
        return None;
    }
    let numerator: i128 = scaled.unwrap();
    proof {
        lemma_trunc_div_bound(numerator as int, spread as int);
    }
    let terminal = numerator.checked_div(spread);
    assert(terminal == Some(trunc_div(numerator as int, spread as int) as i128));
    discount_wide(terminal.unwrap(), expected_return, periods)
}

/// The value today, in whole currency units, of the free cash flows of a
/// forecast: the sum of [`present_value_in_millionths`], rounded towards
/// zero once.
///
/// Fails with an arithmetic failure exactly when one plus the rate is
/// zero or a figure cannot be represented.
pub fn discount_estimates_to_today(projections: &Vec<CompanyIncome>, expected_return: i64) -> (r:
    Result<i64, ValuationError>)
    ensures
        r == amount_or_failure(
            whole_units(present_value(projections@, expected_return as int, projections@.len())),
        ),
{
    match present_value_in_millionths(projections, expected_return) {
        Some(millionths) => to_whole_units(millionths),
        None => Err(ValuationError::ArithmeticError),
    }
}

/// The value today, in whole currency units, of all free cash flow after a
/// forecast of `periods` periods that ends with `last_free_cash_flow`, at
/// the rate `expected_return` and the growth `perpetual_growth`, both
/// fractions: the terminal value, discounted and rounded towards zero once.
///
/// Fails with an arithmetic failure exactly when the rate does not exceed
/// the growth, or when a figure cannot be represented.
pub fn discounted_terminal_value(
    last_free_cash_flow: i64,
    expected_return: i64,
    perpetual_growth: i64,
    periods: usize,
) -> (r: Result<i64, ValuationError>)
    ensures
        r == amount_or_failure(
            whole_units(
                discounted_terminal(
                    last_free_cash_flow as int,
                    expected_return as int,
                    perpetual_growth as int,
                    periods as nat,
                ),
            ),
        ),
{
    match terminal_value_in_millionths(
        last_free_cash_flow,
        expected_return,
        perpetual_growth,
        periods,
    ) {
        Some(millionths) => to_whole_units(millionths),
        None => Err(ValuationError::ArithmeticError),
    }
}

} // verus!
