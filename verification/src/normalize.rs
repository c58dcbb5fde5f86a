//! Turning analyst consensus estimates into absolute currency figures.
//!
//! The provider labels each estimate with its fiscal period, `FY <year>`,
//! and quotes cash flow per share and the other figures in millions. This
//! module reads the year out of the label, scales the figures to whole
//! currency units, and puts the records in chronological order.

use vstd::prelude::*;
use vstd::string::*;
use vstd::utf8::encode_utf8;
use crate::error::ValuationError;
use crate::fixed::{mul_div, mul_div_spec, sub_spec, ONE};
use crate::models::{AnnualCashFlow, AnnualIncomeStatement, Estimate, EstimateResponse,
    EstimateResponseList};

verus! {

/// Whether the three bytes `FY ` stand in `s` at index `i`.
pub open spec fn marker_at(s: Seq<u8>, i: int) -> bool {
    &&& 0 <= i
    &&& i + 3 <= s.len()
    &&& s[i] == 0x46
    &&& s[i + 1] == 0x59
    &&& s[i + 2] == 0x20
}

/// The least index at or after `from` where the marker stands, or the
/// length of `s` if it stands nowhere from there on.
pub open spec fn next_marker(s: Seq<u8>, from: int) -> int
    decreases s.len() - from,
{
    if from < 0 || from + 3 > s.len() {
        s.len() as int
    } else if marker_at(s, from) {
        from
    } else {
        next_marker(s, from + 1)
    }
}

/// Whether a byte is an ASCII decimal digit.
pub open spec fn is_digit(b: u8) -> bool {
    0x30 <= b <= 0x39
}

/// Whether every byte of `t` is a decimal digit.
pub open spec fn all_digits(t: Seq<u8>) -> bool {
    forall|i: int| 0 <= i < t.len() ==> is_digit(#[trigger] t[i])
}

/// The number that a sequence of decimal digits writes.
pub open spec fn decimal_value(t: Seq<u8>) -> nat
    decreases t.len(),
{
    if t.len() == 0 {
        0
    } else {
        10 * decimal_value(t.drop_last()) + (t.last() - 0x30) as nat
    }
}

/// The digits of a number text: the text without a leading plus sign.
pub open spec fn unsigned_digits(t: Seq<u8>) -> Seq<u8> {
    if t.len() > 0 && t[0] == 0x2b {
        t.subrange(1, t.len() as int)
    } else {
        t
    }
}

/// The unsigned 16-bit number that `t` writes: an optional plus sign, then
/// one or more decimal digits whose value is at most 65535.
pub open spec fn year_of_text(t: Seq<u8>) -> Option<u16> {
    let digits = unsigned_digits(t);
    if digits.len() > 0 && all_digits(digits) && decimal_value(digits) <= u16::MAX {
        Some(decimal_value(digits) as u16)
    } else {
        None
    }
}

/// The text of the year in a label: what stands between the first marker
/// and the next one, or the end of the label.
pub open spec fn year_text(s: Seq<u8>) -> Seq<u8>
    recommends
        next_marker(s, 0) + 3 <= s.len(),
{
    let start = next_marker(s, 0) + 3;
    s.subrange(start, next_marker(s, start))
}

/// The fiscal year that a label names, or a parse failure if the label
/// holds no marker or no 16-bit year follows the first one.
pub open spec fn fiscal_year_spec(s: Seq<u8>) -> Result<u16, ValuationError> {
    if next_marker(s, 0) + 3 > s.len() {
        Err(ValuationError::ParseError)
    } else {
        match year_of_text(year_text(s)) {
            Some(year) => Ok(year),
            None => Err(ValuationError::ParseError),
        }
    }
}

/// The value of a run of digits is at least the value of each of its prefixes.
pub proof fn lemma_prefix_value(t: Seq<u8>, k: int)
    requires
        0 <= k <= t.len(),
    ensures
        decimal_value(t.subrange(0, k)) <= decimal_value(t),
    decreases t.len(),
{
    if k == t.len() {
        assert(t.subrange(0, k) =~= t);
    } else {
        assert(t.drop_last().subrange(0, k) =~= t.subrange(0, k));
        lemma_prefix_value(t.drop_last(), k);
    }
}

fn find_marker(bytes: &[u8], from: usize) -> (at: usize)
    requires
        from <= bytes@.len(),
    ensures
        at == next_marker(bytes@, from as int),
        from <= at <= bytes@.len(),
{
    let n: usize = bytes.len();
    let mut i: usize = from;
    while i < n && n - i >= 3
        invariant
            from <= i <= n,
            n == bytes@.len(),
            next_marker(bytes@, from as int) == next_marker(bytes@, i as int),
        decreases n - i,
    {
        if bytes[i] == 0x46 && bytes[i + 1] == 0x59 && bytes[i + 2] == 0x20 {
            return i;
        }
        i += 1;
    }
    n
}

fn parse_year(bytes: &[u8], start: usize, end: usize) -> (r: Option<u16>)
    requires
        start <= end <= bytes@.len(),
    ensures
        r == year_of_text(bytes@.subrange(start as int, end as int)),
{
    let ghost text = bytes@.subrange(start as int, end as int);
    let mut i: usize = start;
    if start < end && bytes[start] == 0x2b {
        i = start + 1;
    }
    let first: usize = i;
    let ghost digits = unsigned_digits(text);
    assert(digits =~= bytes@.subrange(first as int, end as int));
    if first == end {
        return None;
    }
    let mut value: u32 = 0;
    while i < end
        invariant
            start <= first <= i <= end <= bytes@.len(),
            text == bytes@.subrange(start as int, end as int),
            digits == unsigned_digits(text),
            digits == bytes@.subrange(first as int, end as int),
            all_digits(digits.subrange(0, i - first)),
            value == decimal_value(digits.subrange(0, i - first)),
            value <= u16::MAX,
        decreases end - i,
    {
        let b: u8 = bytes[i];
        let ghost before = digits.subrange(0, i - first);
        let ghost after = digits.subrange(0, i - first + 1);
        assert(after.drop_last() =~= before);
        assert(after.last() == b);
        if b < 0x30 || b > 0x39 {
            assert(!is_digit(digits[i - first]));
            return None;
        }
        let next: u32 = value * 10 + (b - 0x30) as u32;
        assert(next == decimal_value(after));
        if next > 0xffff {
            proof {
                lemma_prefix_value(digits, i - first + 1);
            }
            return None;
        }
        assert(all_digits(after)) by {
            assert forall|j: int| 0 <= j < after.len() implies is_digit(#[trigger] after[j]) by {
                if j < before.len() {
                    assert(after[j] == before[j]);
                }
            }
        }
        value = next;
        i += 1;
    }
    assert(digits.subrange(0, i - first) =~= digits);
    Some(value as u16)
}

/// Reads the fiscal year out of a label of the form `FY <year>`.
///
/// The label is split at each occurrence of `FY `; the piece after the
/// first occurrence must be an unsigned 16-bit decimal number.
pub fn parse_fiscal_year(label: &str) -> (r: Result<u16, ValuationError>)
    ensures
        r == fiscal_year_spec(label.spec_bytes()),
{
    let bytes = label.as_bytes();
    let n: usize = bytes.len();
    let at: usize = find_marker(bytes, 0);
    if n - at < 3 {
        return Err(ValuationError::ParseError);
    }
    let start: usize = at + 3;
    let end: usize = find_marker(bytes, start);
    match parse_year(bytes, start, end) {
        Some(year) => Ok(year),
        None => Err(ValuationError::ParseError),
    }
}

/// The two absolute records that one estimate gives for a company with
/// `shares` shares outstanding.
///
/// Cash flow is the per-share figure times the number of shares. A figure
/// quoted in millions, written in fixed point, is already the figure in
/// whole currency units; capital expenditure changes its sign. A malformed
/// label is a parse failure; a figure that cannot be represented, an
/// arithmetic one.
pub open spec fn normalized_record(e: EstimateResponse, shares: int) -> Result<
    (AnnualCashFlow, AnnualIncomeStatement),
    ValuationError,
> {
    match fiscal_year_spec(encode_utf8(e.fiscal_period@)) {
        Err(err) => Err(err),
        Ok(year) => match (
            sub_spec(0, e.consensus_CPX as int),
            mul_div_spec(e.consensus_CPS as int, shares, ONE as int),
        ) {
            (Some(capex), Some(cash)) => Ok(
                (
                    AnnualCashFlow {
                        capital_expenditures: capex as i64,
                        cash_flow: cash as i64,
                        fiscal_year: year,
                        net_income: e.consensus_NET,
                    },
                    AnnualIncomeStatement {
                        fiscal_year: year,
                        total_revenue: e.consensus_SAL,
                        net_income: e.consensus_NET,
                        interest_income: 0,
                        income_tax: 0,
                        pretax_income: 0,
                    },
                ),
            ),
            _ => Err(ValuationError::ArithmeticError),
        },
    }
}

/// What the estimate at index `i` of a list normalizes to.
pub open spec fn record_at(es: Seq<EstimateResponse>, shares: int, i: int) -> Result<
    (AnnualCashFlow, AnnualIncomeStatement),
    ValuationError,
> {
    normalized_record(es[i], shares)
}

/// Whether the estimate at index `i` is the first of the list that cannot
/// be normalized.
pub open spec fn first_failure(es: Seq<EstimateResponse>, shares: int, i: int) -> bool {
    &&& 0 <= i < es.len()
    &&& record_at(es, shares, i) is Err
    &&& forall|j: int| 0 <= j < i ==> (#[trigger] record_at(es, shares, j)) is Ok
}

/// Whether `cash` and `income` hold, index by index, what the estimates of
/// a list normalize to.
pub open spec fn normalized_in_order(
    es: Seq<EstimateResponse>,
    shares: int,
    cash: Seq<AnnualCashFlow>,
    income: Seq<AnnualIncomeStatement>,
) -> bool {
    &&& cash.len() == es.len()
    &&& income.len() == es.len()
    &&& forall|i: int|
        0 <= i < es.len() ==> #[trigger] record_at(es, shares, i) == Ok::<_, ValuationError>(
            (cash[i], income[i]),
        )
}

/// Whether `cash` and `income` are the estimates of a list in the opposite
/// order: record `i` of each is what the estimate `i` places from the end
/// of the list normalizes to. A list that the provider sent with the most
/// recent period first gives series with the earliest period first.
pub open spec fn normalized_ascending(
    es: Seq<EstimateResponse>,
    shares: int,
    cash: Seq<AnnualCashFlow>,
    income: Seq<AnnualIncomeStatement>,
) -> bool {
    &&& cash.len() == es.len()
    &&& income.len() == es.len()
    &&& forall|i: int|
        0 <= i < es.len() ==> #[trigger] record_at(es, shares, es.len() - 1 - i) == Ok::<
            _,
            ValuationError,
        >((cash[i], income[i]))
}

fn normalize_estimate(e: &EstimateResponse, shares_outstanding: i64) -> (r: Result<
    (AnnualCashFlow, AnnualIncomeStatement),
    ValuationError,
>)
    ensures
        r == normalized_record(*e, shares_outstanding as int),
{
    let fiscal_year = match parse_fiscal_year(e.fiscal_period.as_str()) {
        Ok(year) => year,
        Err(err) => { return Err(err); },
    };
    let capital_expenditures = match 0i64.checked_sub(e.consensus_CPX) {
        Some(v) => v,
        None => { return Err(ValuationError::ArithmeticError); },
    };
    let cash_flow = match mul_div(e.consensus_CPS, shares_outstanding, ONE) {
        Some(v) => v,
        None => { return Err(ValuationError::ArithmeticError); },
    };
    Ok(
        (
            AnnualCashFlow {
                capital_expenditures,
                cash_flow,
                fiscal_year,
                net_income: e.consensus_NET,
            },
            AnnualIncomeStatement {
                fiscal_year,
                total_revenue: e.consensus_SAL,
                net_income: e.consensus_NET,
                interest_income: 0,
                income_tax: 0,
                pretax_income: 0,
            },
        ),
    )
}

fn normalize_in_provider_order(estimate_resp: &EstimateResponseList, shares_outstanding: i64) -> (r:
    Result<(Vec<AnnualCashFlow>, Vec<AnnualIncomeStatement>), ValuationError>)
    ensures
        match r {
            Ok((cash, income)) => normalized_in_order(
                estimate_resp.estimates@,
                shares_outstanding as int,
                cash@,
                income@,
            ),
            Err(err) => exists|i: int|
                first_failure(estimate_resp.estimates@, shares_outstanding as int, i)
                    && #[trigger] record_at(estimate_resp.estimates@, shares_outstanding as int, i)
                    == Err::<(AnnualCashFlow, AnnualIncomeStatement), _>(err),
        },
{
    let mut cash_flow_estimates: Vec<AnnualCashFlow> = Vec::new();
    let mut revenue_estimates: Vec<AnnualIncomeStatement> = Vec::new();
    let n: usize = estimate_resp.estimates.len();
    let ghost es = estimate_resp.estimates@;
    let ghost shares = shares_outstanding as int;
    let mut i: usize = 0;
    while i < n
        invariant
            i <= n,
            n == es.len(),
            es == estimate_resp.estimates@,
            shares == shares_outstanding as int,
            normalized_in_order(es.subrange(0, i as int), shares, cash_flow_estimates@, revenue_estimates@),
        decreases n - i,
    {
        let ghost done = es.subrange(0, i as int);
        let ghost more = es.subrange(0, i + 1);
        assert forall|j: int| 0 <= j < i implies #[trigger] record_at(es, shares, j) == record_at(
            done,
            shares,
            j,
        ) by {}
        match normalize_estimate(&estimate_resp.estimates[i], shares_outstanding) {
            Err(err) => {
                assert(first_failure(es, shares, i as int));
                assert(record_at(es, shares, i as int) == Err::<
                    (AnnualCashFlow, AnnualIncomeStatement),
                    _,
                >(err));
                return Err(err);
            },
            Ok((cash, income)) => {
                cash_flow_estimates.push(cash);
                revenue_estimates.push(income);
                assert forall|j: int| 0 <= j < i + 1 implies #[trigger] record_at(more, shares, j)
                    == Ok::<_, ValuationError>((cash_flow_estimates@[j], revenue_estimates@[j])) by {
                    if j < i {
                        assert(record_at(more, shares, j) == record_at(done, shares, j));
                    }
                }
            },
        }
        i += 1;
    }
    assert(es.subrange(0, i as int) =~= es);
    Ok((cash_flow_estimates, revenue_estimates))
}

/// A copy of a vector with its items in the opposite order.
pub fn reversed<T: Copy>(items: &Vec<T>) -> (r: Vec<T>)
    ensures
        r@ == items@.reverse(),
{
    let n: usize = items.len();
    let mut out: Vec<T> = Vec::new();
    let mut i: usize = n;
    while i > 0
        invariant
            i <= n,
            n == items@.len(),
            out@.len() == n - i,
            forall|j: int| 0 <= j < out@.len() ==> out@[j] == items@[n - 1 - j],
        decreases i,
    {
        i -= 1;
        out.push(items[i]);
    }
    assert(out@ =~= items@.reverse());
    out
}

/// Scales every estimate of a response to absolute currency units and
/// puts the records in chronological order.
///
/// The provider sends the most recent period first; the two series come
/// back with the earliest period first, one cash-flow and one income
/// record per estimate. This succeeds exactly when every estimate can be
/// normalized. Otherwise the failure of the first estimate, in the
/// provider's order, that cannot be normalized is returned.
pub fn normalize_estimates_data(estimate_resp: &EstimateResponseList, shares_outstanding: i64) -> (r:
    Result<(Vec<AnnualCashFlow>, Vec<AnnualIncomeStatement>), ValuationError>)
    ensures
        match r {
            Ok((cash, income)) => normalized_ascending(
                estimate_resp.estimates@,
                shares_outstanding as int,
                cash@,
                income@,
            ),
            Err(err) => exists|i: int|
                first_failure(estimate_resp.estimates@, shares_outstanding as int, i)
                    && #[trigger] record_at(estimate_resp.estimates@, shares_outstanding as int, i)
                    == Err::<(AnnualCashFlow, AnnualIncomeStatement), _>(err),
        },
{
    match normalize_in_provider_order(estimate_resp, shares_outstanding) {
        Err(err) => Err(err),
        Ok((cash, income)) => {
            let cash_flow_estimates = reversed(&cash);
            let revenue_estimates = reversed(&income);
            assert(normalized_ascending(
                estimate_resp.estimates@,
                shares_outstanding as int,
                cash_flow_estimates@,
                revenue_estimates@,
            )) by {
                let es = estimate_resp.estimates@;
                let shares = shares_outstanding as int;
                assert forall|i: int| 0 <= i < es.len() implies #[trigger] record_at(
                    es,
                    shares,
                    es.len() - 1 - i,
                ) == Ok::<_, ValuationError>((cash_flow_estimates@[i], revenue_estimates@[i])) by {
                    assert(cash_flow_estimates@[i] == cash@[es.len() - 1 - i]);
                    assert(revenue_estimates@[i] == income@[es.len() - 1 - i]);
                }
            }
            Ok((cash_flow_estimates, revenue_estimates))
        },
    }
}

impl Estimate {
    /// The consensus estimates of a response as two chronological series:
    /// what [`normalize_estimates_data`] returns, under the names of the
    /// series.
    pub fn from_response(estimate_resp: &EstimateResponseList, shares_outstanding: i64) -> (r:
        Result<Estimate, ValuationError>)
        ensures
            match r {
                Ok(estimate) => normalized_ascending(
                    estimate_resp.estimates@,
                    shares_outstanding as int,
                    estimate.cash_flow_estimates@,
                    estimate.revenue_estimates@,
                ),
                Err(err) => exists|i: int|
                    first_failure(estimate_resp.estimates@, shares_outstanding as int, i)
                        && #[trigger] record_at(
                        estimate_resp.estimates@,
                        shares_outstanding as int,
                        i,
                    ) == Err::<(AnnualCashFlow, AnnualIncomeStatement), _>(err),
            },
    {
        match normalize_estimates_data(estimate_resp, shares_outstanding) {
            Err(err) => Err(err),
            Ok((cash_flow_estimates, revenue_estimates)) => Ok(
                Estimate { cash_flow_estimates, revenue_estimates },
            ),
        }
    }
}

/// The failure of the first estimate of a list that cannot be normalized,
/// if there is one.
pub open spec fn normalization_failure(es: Seq<EstimateResponse>, shares: int) -> Option<
    ValuationError,
> {
    if exists|i: int| first_failure(es, shares, i) {
        Some(record_at(es, shares, choose|i: int| first_failure(es, shares, i))->Err_0)
    } else {
        None
    }
}

/// The cash-flow series of a list of estimates that can all be
/// normalized: one record per estimate, in the opposite order.
pub open spec fn chronological_cash_flow(es: Seq<EstimateResponse>, shares: int) -> Seq<
    AnnualCashFlow,
> {
    Seq::new(es.len(), |i: int| record_at(es, shares, es.len() - 1 - i)->Ok_0.0)
}

/// The income series of a list of estimates that can all be normalized:
/// one record per estimate, in the opposite order.
pub open spec fn chronological_income(es: Seq<EstimateResponse>, shares: int) -> Seq<
    AnnualIncomeStatement,
> {
    Seq::new(es.len(), |i: int| record_at(es, shares, es.len() - 1 - i)->Ok_0.1)
}

/// A list has at most one first estimate that cannot be normalized.
pub proof fn lemma_first_failure_unique(es: Seq<EstimateResponse>, shares: int, i: int, j: int)
    requires
        first_failure(es, shares, i),
        first_failure(es, shares, j),
    ensures
        i == j,
{
    if i < j {
        assert(record_at(es, shares, i) is Ok);
    } else if j < i {
        assert(record_at(es, shares, j) is Ok);
    }
}

/// Two series that hold what the estimates normalize to, in the opposite
/// order, are the chronological series, and no estimate fails.
pub proof fn lemma_chronological(
    es: Seq<EstimateResponse>,
    shares: int,
    cash: Seq<AnnualCashFlow>,
    income: Seq<AnnualIncomeStatement>,
)
    requires
        normalized_ascending(es, shares, cash, income),
    ensures
        normalization_failure(es, shares) is None,
        cash == chronological_cash_flow(es, shares),
        income == chronological_income(es, shares),
{
    let n = es.len() as int;
    assert forall|i: int| !first_failure(es, shares, i) by {
        if 0 <= i < n {
            assert(record_at(es, shares, n - 1 - (n - 1 - i)) is Ok);
        }
    }
    assert forall|i: int| 0 <= i < n implies cash[i] == chronological_cash_flow(es, shares)[i]
        && income[i] == chronological_income(es, shares)[i] by {
        assert(record_at(es, shares, n - 1 - i) == Ok::<_, ValuationError>((cash[i], income[i])));
    }
    assert(cash =~= chronological_cash_flow(es, shares));
    assert(income =~= chronological_income(es, shares));
}

} // verus!
