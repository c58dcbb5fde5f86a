//! What the past says about the future: average revenue growth, the
//! lowest net margin, and the lowest share of net income that arrived as
//! free cash flow.
//!
//! All three are fixed-point percentages, rounded towards zero.

use vstd::prelude::*;
use crate::error::ValuationError;
use crate::fixed::{add_spec, fits, mul_div, mul_div_spec, mul_div_wide, trunc_div, HUNDRED};
use crate::models::{AnnualCashFlow, AnnualIncomeStatement, CompanyIncome};

verus! {

/// Revenue growth from one year to the next, in percent of the earlier
/// year's revenue.
pub open spec fn revenue_growth(earlier: int, later: int) -> Option<int> {
    mul_div_spec(later - earlier, HUNDRED as int, earlier)
}

/// Revenue growth from period `i` of a series to period `i + 1`.
pub open spec fn growth_at(series: Seq<AnnualIncomeStatement>, i: int) -> Option<int> {
    revenue_growth(series[i].total_revenue as int, series[i + 1].total_revenue as int)
}

/// Net income of period `i` in percent of its revenue.
pub open spec fn margin_at(series: Seq<AnnualIncomeStatement>, i: int) -> Option<int> {
    mul_div_spec(series[i].net_income as int, HUNDRED as int, series[i].total_revenue as int)
}

/// Whether every growth figure and every margin of a series exists.
pub open spec fn growth_defined(series: Seq<AnnualIncomeStatement>) -> bool {
    &&& forall|i: int| 0 <= i < series.len() - 1 ==> (#[trigger] growth_at(series, i)) is Some
    &&& forall|i: int| 0 <= i < series.len() ==> (#[trigger] margin_at(series, i)) is Some
}

/// The sum of the first `k` growth figures of a series.
pub open spec fn growth_sum(series: Seq<AnnualIncomeStatement>, k: int) -> int
    decreases k,
{
    if k <= 0 {
        0
    } else {
        growth_sum(series, k - 1) + growth_at(series, k - 1).unwrap()
    }
}

/// The mean of all year-over-year growth figures of a series of at least
/// two periods.
pub open spec fn average_growth(series: Seq<AnnualIncomeStatement>) -> int {
    trunc_div(growth_sum(series, series.len() - 1), series.len() - 1)
}

/// Whether `m` is the lowest net margin among the periods of a series.
pub open spec fn is_minimum_margin(series: Seq<AnnualIncomeStatement>, m: int) -> bool {
    &&& exists|i: int| 0 <= i < series.len() && #[trigger] margin_at(series, i) == Some(m)
    &&& forall|i: int|
        0 <= i < series.len() ==> m <= (#[trigger] margin_at(series, i)).unwrap()
}

/// The mean of `k` numbers that fit in 64 bits fits in 64 bits.
proof fn lemma_mean_fits(sum: int, k: int)
    requires
        k > 0,
        k * i64::MIN <= sum <= k * i64::MAX,
    ensures
        fits(trunc_div(sum, k)),
{
    let lo = i64::MIN as int;
    let hi = i64::MAX as int;
    if sum >= 0 {
        assert(0 <= sum / k <= hi) by (nonlinear_arith)
            requires
                k > 0,
                0 <= sum <= k * hi,
        ;
    } else {
        let neg = -sum;
        assert(0 <= neg / k <= -lo) by (nonlinear_arith)
            requires
                k > 0,
                0 <= neg <= k * (-lo),
        ;
    }
}

/// Average revenue growth and lowest net margin of a chronological series
/// of income statements, both in percent.
///
/// Growth is taken from each period to the next and averaged over all such
/// steps; a series of two periods has one growth figure, which is the
/// average. The margin is the least of all periods.
///
/// A series of fewer than two periods is a data failure. A period without
/// revenue, or a figure too large to represent, is an arithmetic failure.
pub fn calc_average_growth(income_statement: &Vec<AnnualIncomeStatement>) -> (r: Result<
    (i64, i64),
    ValuationError,
>)
    ensures
        income_statement@.len() < 2 <==> r == Err::<(i64, i64), _>(
            ValuationError::ProviderDataError,
        ),
        income_statement@.len() >= 2 && !growth_defined(income_statement@) <==> r == Err::<
            (i64, i64),
            _,
        >(ValuationError::ArithmeticError),
        income_statement@.len() >= 2 && growth_defined(income_statement@) <==> r is Ok,
        r is Ok ==> r->Ok_0.0 == average_growth(income_statement@),
        r is Ok ==> is_minimum_margin(income_statement@, r->Ok_0.1 as int),
{
    let n: usize = income_statement.len();
    if n < 2 {
        return Err(ValuationError::ProviderDataError);
    }
    let ghost series = income_statement@;
    let first_margin = match mul_div(
        income_statement[0].net_income,
        HUNDRED,
        income_statement[0].total_revenue,
    ) {
        Some(m) => m,
        None => {
            assert(margin_at(series, 0) is None);
            return Err(ValuationError::ArithmeticError);
        },
    };
    let mut least: i64 = first_margin;
    let mut sum: i128 = 0;
    let mut i: usize = 0;
    assert(margin_at(series, 0) == Some(least as int));
    while i < n - 1
        invariant
            2 <= n == series.len(),
            series == income_statement@,
            i <= n - 1,
            forall|j: int| 0 <= j < i ==> (#[trigger] growth_at(series, j)) is Some,
            forall|j: int| 0 <= j <= i ==> (#[trigger] margin_at(series, j)) is Some,
            sum == growth_sum(series, i as int),
            i * i64::MIN <= sum <= i * i64::MAX,
            exists|j: int| 0 <= j <= i && #[trigger] margin_at(series, j) == Some(least as int),
            forall|j: int| 0 <= j <= i ==> least <= (#[trigger] margin_at(series, j)).unwrap(),
        decreases n - 1 - i,
    {
        let earlier: i64 = income_statement[i].total_revenue;
        let later: i64 = income_statement[i + 1].total_revenue;
        let growth = match mul_div_wide(later as i128 - earlier as i128, HUNDRED, earlier) {
            Some(g) => g,
            None => {
                assert(growth_at(series, i as int) is None);
                return Err(ValuationError::ArithmeticError);
            },
        };
        let margin = match mul_div(
            income_statement[i + 1].net_income,
            HUNDRED,
            income_statement[i + 1].total_revenue,
        ) {
            Some(m) => m,
            None => {
                assert(margin_at(series, i + 1) is None);
                return Err(ValuationError::ArithmeticError);
            },
        };
        assert(growth_at(series, i as int) == Some(growth as int));
        assert(margin_at(series, i + 1) == Some(margin as int));
        assert((i + 1) * i64::MIN == i * i64::MIN + i64::MIN && (i + 1) * i64::MAX == i
            * i64::MAX + i64::MAX) by (nonlinear_arith);
        assert(-0x7fff_ffff_ffff_ffff_ffff_ffff_ffff_ffff <= (i + 1) * i64::MIN && (i + 1)
            * i64::MAX <= 0x7fff_ffff_ffff_ffff_ffff_ffff_ffff_ffff) by (nonlinear_arith)
            requires
                0 <= i + 1 <= 0xffff_ffff_ffff_ffff,
        ;
        sum = sum + growth as i128;
        if margin < least {
            least = margin;
        }
        i += 1;
    }
    let steps: i128 = (n - 1) as i128;
    proof {
        lemma_mean_fits(sum as int, steps as int);
    }
    let average: i128 = sum.checked_div(steps).unwrap();
    assert(average == average_growth(series));
    Ok((average as i64, least))
}

/// The least index at or after `from` of an income record for the fiscal
/// year `year`, or the length of the series if there is none.
pub open spec fn partner_from(income: Seq<AnnualIncomeStatement>, year: u16, from: int) -> int
    decreases income.len() - from,
{
    if from < 0 || from >= income.len() {
        income.len() as int
    } else if income[from].fiscal_year == year {
        from
    } else {
        partner_from(income, year, from + 1)
    }
}

/// The cash-flow records that have an income record of the same fiscal
/// year, each with the first such income record, in the order of the
/// cash-flow series.
pub open spec fn joined(cash: Seq<AnnualCashFlow>, income: Seq<AnnualIncomeStatement>) -> Seq<
    (AnnualCashFlow, AnnualIncomeStatement),
>
    decreases cash.len(),
{
    if cash.len() == 0 {
        Seq::empty()
    } else {
        let before = joined(cash.drop_last(), income);
        let at = partner_from(income, cash.last().fiscal_year, 0);
        if at < income.len() {
            before.push((cash.last(), income[at]))
        } else {
            before
        }
    }
}

/// Free cash flow: operating cash flow and capital expenditure, which is
/// held as a negative amount, taken together.
pub open spec fn free_cash_flow(c: AnnualCashFlow) -> Option<int> {
    add_spec(c.cash_flow as int, c.capital_expenditures as int)
}

/// Free cash flow in percent of net income.
pub open spec fn cash_ratio(c: AnnualCashFlow) -> Option<int> {
    match free_cash_flow(c) {
        Some(free) => mul_div_spec(free, HUNDRED as int, c.net_income as int),
        None => None,
    }
}

/// The record of a fiscal year in which a cash-flow record and an income
/// record meet.
pub open spec fn company_income(c: AnnualCashFlow, p: AnnualIncomeStatement) -> CompanyIncome {
    CompanyIncome {
        revenue: p.total_revenue,
        net_income: c.net_income,
        free_cash_flow: free_cash_flow(c).unwrap() as i64,
        fiscal_year: c.fiscal_year,
    }
}

/// Whether the cash ratio of every pair exists.
pub open spec fn ratios_defined(pairs: Seq<(AnnualCashFlow, AnnualIncomeStatement)>) -> bool {
    forall|i: int| 0 <= i < pairs.len() ==> cash_ratio((#[trigger] pairs[i]).0) is Some
}

/// Whether `m` is the lowest cash ratio among the pairs.
pub open spec fn is_minimum_ratio(
    pairs: Seq<(AnnualCashFlow, AnnualIncomeStatement)>,
    m: int,
) -> bool {
    &&& exists|i: int| 0 <= i < pairs.len() && cash_ratio((#[trigger] pairs[i]).0) == Some(m)
    &&& forall|i: int| 0 <= i < pairs.len() ==> m <= cash_ratio((#[trigger] pairs[i]).0).unwrap()
}

/// Whether `records` holds, index by index, the company income of the pairs.
pub open spec fn records_of(
    pairs: Seq<(AnnualCashFlow, AnnualIncomeStatement)>,
    records: Seq<CompanyIncome>,
) -> bool {
    &&& records.len() == pairs.len()
    &&& forall|i: int|
        0 <= i < pairs.len() ==> records[i] == company_income(
            (#[trigger] pairs[i]).0,
            pairs[i].1,
        )
}

fn find_partner(income: &Vec<AnnualIncomeStatement>, year: u16) -> (at: usize)
    ensures
        at == partner_from(income@, year, 0),
        at <= income@.len(),
{
    let n: usize = income.len();
    let mut i: usize = 0;
    while i < n
        invariant
            i <= n == income@.len(),
            partner_from(income@, year, 0) == partner_from(income@, year, i as int),
        decreases n - i,
    {
        if income[i].fiscal_year == year {
            return i;
        }
        i += 1;
    }
    n
}

/// Joins a cash-flow series and an income series by fiscal year, and finds
/// the lowest share of net income that arrived as free cash flow.
///
/// A cash-flow record takes part if the income series holds a record of
/// the same fiscal year; the others are left out of the result, and the
/// two series themselves stay as they are. Returned are the joined
/// records, in the order of the cash-flow series, and the least of their
/// cash ratios in percent.
///
/// If no fiscal year is common to both series, this is a data failure. A
/// pair without net income, or with a figure too large to represent, is an
/// arithmetic failure.
pub fn equity_to_cash_flow(
    cash_flow: &Vec<AnnualCashFlow>,
    income: &Vec<AnnualIncomeStatement>,
) -> (r: Result<(Vec<CompanyIncome>, i64), ValuationError>)
    ensures
        joined(cash_flow@, income@).len() == 0 <==> r == Err::<(Vec<CompanyIncome>, i64), _>(
            ValuationError::ProviderDataError,
        ),
        joined(cash_flow@, income@).len() > 0 && !ratios_defined(joined(cash_flow@, income@))
            <==> r == Err::<(Vec<CompanyIncome>, i64), _>(ValuationError::ArithmeticError),
        joined(cash_flow@, income@).len() > 0 && ratios_defined(joined(cash_flow@, income@))
            <==> r is Ok,
        r is Ok ==> records_of(joined(cash_flow@, income@), r->Ok_0.0@),
        r is Ok ==> is_minimum_ratio(joined(cash_flow@, income@), r->Ok_0.1 as int),
{
    let n: usize = cash_flow.len();
    let mut records: Vec<CompanyIncome> = Vec::new();
    let mut least: i64 = 0;
    let mut i: usize = 0;
    while i < n
        invariant
            i <= n == cash_flow@.len(),
            records_of(joined(cash_flow@.subrange(0, i as int), income@), records@),
            ratios_defined(joined(cash_flow@.subrange(0, i as int), income@)),
            records@.len() > 0 ==> is_minimum_ratio(
                joined(cash_flow@.subrange(0, i as int), income@),
                least as int,
            ),
        decreases n - i,
    {
        let ghost before = joined(cash_flow@.subrange(0, i as int), income@);
        let ghost after = joined(cash_flow@.subrange(0, i + 1), income@);
        assert(cash_flow@.subrange(0, i + 1).drop_last() =~= cash_flow@.subrange(0, i as int));
        let flow = cash_flow[i];
        let at: usize = find_partner(income, flow.fiscal_year);
        if at < income.len() {
            assert(after == before.push((flow, income@[at as int])));
            proof {
                lemma_joined_prefix(cash_flow@, income@, i + 1);
            }
            let free = match flow.cash_flow.checked_add(flow.capital_expenditures) {
                Some(f) => f,
                None => {
                    assert(cash_ratio(after[before.len() as int].0) is None);
                    assert(joined(cash_flow@, income@)[before.len() as int]
                        == after[before.len() as int]);
                    return Err(ValuationError::ArithmeticError);
                },
            };
            let ratio = match mul_div(free, HUNDRED, flow.net_income) {
                Some(q) => q,
                None => {
                    assert(cash_ratio(after[before.len() as int].0) is None);
                    assert(joined(cash_flow@, income@)[before.len() as int]
                        == after[before.len() as int]);
                    return Err(ValuationError::ArithmeticError);
                },
            };
            let ghost old_least = least;
            let ghost was_empty = records@.len() == 0;
            if records.len() == 0 || ratio < least {
                least = ratio;
            }
            records.push(
                CompanyIncome {
                    revenue: income[at].total_revenue,
                    net_income: flow.net_income,
                    free_cash_flow: free,
                    fiscal_year: flow.fiscal_year,
                },
            );
            assert(cash_ratio(after[before.len() as int].0) == Some(ratio as int));
            assert forall|j: int| 0 <= j < after.len() implies cash_ratio(
                (#[trigger] after[j]).0,
            ) is Some && least <= cash_ratio(after[j].0).unwrap() && records@[j] == company_income(
                after[j].0,
                after[j].1,
            ) by {
                if j < before.len() {
                    assert(after[j] == before[j]);
                }
            }
            proof {
                if !was_empty && least == old_least {
                    let k = choose|k: int|
                        0 <= k < before.len() && cash_ratio((#[trigger] before[k]).0) == Some(
                            least as int,
                        );
                    assert(after[k] == before[k]);
                }
            }
        } else {
            assert(after == before);
        }
        i += 1;
    }
    assert(cash_flow@.subrange(0, i as int) =~= cash_flow@);
    if records.len() == 0 {
        return Err(ValuationError::ProviderDataError);
    }
    Ok((records, least))
}

/// The join of a prefix of the cash-flow series is a prefix of the join of
/// the whole series.
proof fn lemma_joined_prefix(
    cash: Seq<AnnualCashFlow>,
    income: Seq<AnnualIncomeStatement>,
    k: int,
)
    requires
        0 <= k <= cash.len(),
    ensures
        joined(cash.subrange(0, k), income).len() <= joined(cash, income).len(),
        forall|j: int|
            0 <= j < joined(cash.subrange(0, k), income).len() ==> joined(cash, income)[j]
                == #[trigger] joined(cash.subrange(0, k), income)[j],
    decreases cash.len(),
{
    if k == cash.len() {
        assert(cash.subrange(0, k) =~= cash);
    } else {
        assert(cash.drop_last().subrange(0, k) =~= cash.subrange(0, k));
        lemma_joined_prefix(cash.drop_last(), income, k);
    }
}

/// The lowest net margin among the periods of a series.
pub open spec fn minimum_margin(series: Seq<AnnualIncomeStatement>) -> int {
    choose|m: int| is_minimum_margin(series, m)
}

/// The lowest cash ratio among the pairs.
pub open spec fn minimum_ratio(pairs: Seq<(AnnualCashFlow, AnnualIncomeStatement)>) -> int {
    choose|m: int| is_minimum_ratio(pairs, m)
}

/// A series has one lowest net margin and no other.
pub proof fn lemma_minimum_margin_unique(series: Seq<AnnualIncomeStatement>, m: int)
    requires
        is_minimum_margin(series, m),
    ensures
        minimum_margin(series) == m,
{
    let other = minimum_margin(series);
    assert(is_minimum_margin(series, other));
    let i = choose|i: int| 0 <= i < series.len() && #[trigger] margin_at(series, i) == Some(m);
    let j = choose|j: int| 0 <= j < series.len() && #[trigger] margin_at(series, j) == Some(other);
    assert(other <= margin_at(series, i).unwrap());
    assert(m <= margin_at(series, j).unwrap());
}

/// A join has one lowest cash ratio and no other.
pub proof fn lemma_minimum_ratio_unique(
    pairs: Seq<(AnnualCashFlow, AnnualIncomeStatement)>,
    m: int,
)
    requires
        is_minimum_ratio(pairs, m),
    ensures
        minimum_ratio(pairs) == m,
{
    let other = minimum_ratio(pairs);
    assert(is_minimum_ratio(pairs, other));
    let i = choose|i: int| 0 <= i < pairs.len() && cash_ratio((#[trigger] pairs[i]).0) == Some(m);
    let j = choose|j: int|
        0 <= j < pairs.len() && cash_ratio((#[trigger] pairs[j]).0) == Some(other);
    assert(other <= cash_ratio(pairs[i].0).unwrap());
    assert(m <= cash_ratio(pairs[j].0).unwrap());
}

/// The sum of `k` growth figures that all equal `g` is `k` times `g`.
proof fn lemma_steady_growth_sum(series: Seq<AnnualIncomeStatement>, g: int, k: int)
    requires
        0 <= k <= series.len() - 1,
        forall|i: int| 0 <= i < series.len() - 1 ==> #[trigger] growth_at(series, i) == Some(g),
    ensures
        growth_sum(series, k) == k * g,
    decreases k,
{
    if k > 0 {
        lemma_steady_growth_sum(series, g, k - 1);
        assert(growth_at(series, k - 1) == Some(g));
        assert((k - 1) * g + g == k * g) by (nonlinear_arith);
    } else {
        assert(k * g == 0) by (nonlinear_arith)
            requires
                k == 0,
        ;
    }
}

/// Revenue that grows by the same percentage from every period to the
/// next has that percentage as its average growth.
pub proof fn lemma_steady_growth(series: Seq<AnnualIncomeStatement>, g: int)
    requires
        series.len() >= 2,
        forall|i: int| 0 <= i < series.len() - 1 ==> #[trigger] growth_at(series, i) == Some(g),
    ensures
        average_growth(series) == g,
{
    let k = series.len() - 1;
    lemma_steady_growth_sum(series, g, k);
    if g >= 0 {
        assert(k * g >= 0 && (k * g) / k == g) by (nonlinear_arith)
            requires
                k > 0,
                g >= 0,
        ;
    } else {
        assert(k * g < 0 && (-(k * g)) / k == -g) by (nonlinear_arith)
            requires
                k > 0,
                g < 0,
        ;
    }
}

} // verus!
