//! The weighted average cost of capital: the rate of return that a
//! company's lenders and owners together require, and at which its future
//! cash flows are discounted.

use vstd::prelude::*;
use crate::error::{amount_or_failure, ValuationError};
use crate::fixed::{add_spec, mul_div, mul_div_spec, same, sub_spec, ONE};

verus! {

/// The long-run yearly growth of the equity market that is presumed where
/// nothing else is configured: ten percent.
pub const PRESUMED_MARKET_GROWTH: i64 = 10_000_000;

/// What the cost of capital is computed from.
///
/// The first five fields and `market_cap` are amounts of money.
/// `ten_year_treasury_rate` and `presumed_market_growth` are fixed-point
/// percentages; `beta` is a fixed-point factor.
#[derive(Clone, Copy, Debug, PartialEq, Eq, Structural)]
pub struct Wacc {
    pub interest_income: i64,
    pub long_term_debt: i64,
    pub total_current_liabilities: i64,
    pub pre_tax: i64,
    pub income_tax: i64,
    pub ten_year_treasury_rate: i64,
    pub beta: i64,
    pub market_cap: i64,
    pub presumed_market_growth: i64,
}

/// Whether an executable optional pair holds the given mathematical one.
pub open spec fn same_pair(r: Option<(i64, i64)>, m: Option<(int, int)>) -> bool {
    match (r, m) {
        (Some((a, b)), Some((x, y))) => a == x && b == y,
        (None, None) => true,
        _ => false,
    }
}

impl Wacc {
    /// Income tax as a fraction of income before tax.
    pub open spec fn effective_tax_rate_spec(self) -> Option<int> {
        mul_div_spec(self.income_tax as int, ONE as int, self.pre_tax as int)
    }

    /// Total debt, and interest as a fraction of it. Neither exists for a
    /// company without debt.
    pub open spec fn cost_to_debt_spec(self) -> Option<(int, int)> {
        match add_spec(self.long_term_debt as int, self.total_current_liabilities as int) {
            Some(total_debt) => match mul_div_spec(
                self.interest_income as int,
                ONE as int,
                total_debt,
            ) {
                Some(cost) => Some((total_debt, cost)),
                None => None,
            },
            None => None,
        }
    }

    /// The weights of equity and of debt in the capital of a company with
    /// the given total debt: debt as a fraction of debt and market
    /// capitalisation together, and what is left of one.
    pub open spec fn cost_of_equity_spec(self, total_debt: int) -> Option<(int, int)> {
        match add_spec(self.market_cap as int, total_debt) {
            Some(capital) => match mul_div_spec(total_debt, ONE as int, capital) {
                Some(weight_debt) => match sub_spec(ONE as int, weight_debt) {
                    Some(weight_equity) => Some((weight_equity, weight_debt)),
                    None => None,
                },
                None => None,
            },
            None => None,
        }
    }

    /// The return that owners require, by the capital asset pricing model:
    /// the treasury rate, and beta times what the market is presumed to
    /// yield above it.
    pub open spec fn capital_asset_pricing_model_spec(self) -> Option<int> {
        match sub_spec(self.presumed_market_growth as int, self.ten_year_treasury_rate as int) {
            Some(premium) => match mul_div_spec(self.beta as int, premium, ONE as int) {
                Some(reward) => add_spec(self.ten_year_treasury_rate as int, reward),
                None => None,
            },
            None => None,
        }
    }

    /// The weighted average cost of capital: the weight of debt times one
    /// less the taxed cost of debt, and the weight of equity times the cost
    /// of equity.
    pub open spec fn wacc_spec(self) -> Option<int> {
        match (
            self.cost_to_debt_spec(),
            self.effective_tax_rate_spec(),
            self.capital_asset_pricing_model_spec(),
        ) {
            (Some((total_debt, cost_of_debt)), Some(tax_rate), Some(cost_of_equity)) => match (
                mul_div_spec(cost_of_debt, tax_rate, ONE as int),
                self.cost_of_equity_spec(total_debt),
            ) {
                (Some(adjusted_debt), Some((weight_equity, weight_debt))) => match sub_spec(
                    ONE as int,
                    adjusted_debt,
                ) {
                    Some(after_tax) => match (
                        mul_div_spec(weight_debt, after_tax, ONE as int),
                        mul_div_spec(weight_equity, cost_of_equity, ONE as int),
                    ) {
                        (Some(debt_part), Some(equity_part)) => add_spec(debt_part, equity_part),
                        _ => None,
                    },
                    None => None,
                },
                _ => None,
            },
            _ => None,
        }
    }

    /// Income tax as a fraction of income before tax; `None` without income
    /// before tax.
    pub fn effective_tax_rate(&self) -> (r: Option<i64>)
        ensures
            same(r, self.effective_tax_rate_spec()),
    {
        mul_div(self.income_tax, ONE, self.pre_tax)
    }

    /// Total debt, and interest as a fraction of it; `None` without debt.
    pub fn cost_to_debt(&self) -> (r: Option<(i64, i64)>)
        ensures
            same_pair(r, self.cost_to_debt_spec()),
    {
        let total_debt = match self.long_term_debt.checked_add(self.total_current_liabilities) {
            Some(d) => d,
            None => { return None; },
        };
        match mul_div(self.interest_income, ONE, total_debt) {
            Some(cost_to_debt) => Some((total_debt, cost_to_debt)),
            None => None,
        }
    }

    /// The weights of equity and of debt, in this order, for the given
    /// total debt; `None` where debt and market capitalisation cancel.
    pub fn cost_of_equity(&self, total_debt: i64) -> (r: Option<(i64, i64)>)
        ensures
            same_pair(r, self.cost_of_equity_spec(total_debt as int)),
    {
        let updated_debt = match self.market_cap.checked_add(total_debt) {
            Some(c) => c,
            None => { return None; },
        };
        let total_cap_structure = match mul_div(total_debt, ONE, updated_debt) {
            Some(w) => w,
            None => { return None; },
        };
        match ONE.checked_sub(total_cap_structure) {
            Some(equity) => Some((equity, total_cap_structure)),
            None => None,
        }
    }

    /// The cost of equity in percent, by the capital asset pricing model.
    pub fn capital_asset_pricing_model(&self) -> (r: Option<i64>)
        ensures
            same(r, self.capital_asset_pricing_model_spec()),
    {
        let premium = match self.presumed_market_growth.checked_sub(self.ten_year_treasury_rate) {
            Some(p) => p,
            None => { return None; },
        };
        match mul_div(self.beta, premium, ONE) {
            Some(reward) => self.ten_year_treasury_rate.checked_add(reward),
            None => None,
        }
    }

    /// The required rate of return in percent.
    ///
    /// Fails with an arithmetic failure exactly when the company has no
    /// debt or no income before tax, when debt and market capitalisation
    /// cancel, or when a figure cannot be represented. There is no other
    /// failure.
    pub fn generate_wacc(&self) -> (r: Result<i64, ValuationError>)
        ensures
            r == amount_or_failure(self.wacc_spec()),
            self.long_term_debt + self.total_current_liabilities == 0 ==> r == Err::<i64, _>(
                ValuationError::ArithmeticError,
            ),
            self.pre_tax == 0 ==> r == Err::<i64, _>(ValuationError::ArithmeticError),
    {
        let (total_debt, cost_to_debt) = match self.cost_to_debt() {
            Some(pair) => pair,
            None => { return Err(ValuationError::ArithmeticError); },
        };
        let tax_rate = match self.effective_tax_rate() {
            Some(t) => t,
            None => { return Err(ValuationError::ArithmeticError); },
        };
        let cost_of_equity = match self.capital_asset_pricing_model() {
            Some(c) => c,
            None => { return Err(ValuationError::ArithmeticError); },
        };
        let adjusted_debt = match mul_div(cost_to_debt, tax_rate, ONE) {
            Some(a) => a,
            None => { return Err(ValuationError::ArithmeticError); },
        };
        let (equity, total_cap_structure) = match self.cost_of_equity(total_debt) {
            Some(pair) => pair,
            None => { return Err(ValuationError::ArithmeticError); },
        };
        let after_tax = match ONE.checked_sub(adjusted_debt) {
            Some(a) => a,
            None => { return Err(ValuationError::ArithmeticError); },
        };
        let debt_part = match mul_div(total_cap_structure, after_tax, ONE) {
            Some(d) => d,
            None => { return Err(ValuationError::ArithmeticError); },
        };
        let equity_part = match mul_div(equity, cost_of_equity, ONE) {
            Some(e) => e,
            None => { return Err(ValuationError::ArithmeticError); },
        };
        match debt_part.checked_add(equity_part) {
            Some(rate) => Ok(rate),
            None => Err(ValuationError::ArithmeticError),
        }
    }
}

/// For a company that moves with the market, one whose beta is one, the
/// cost of equity is the presumed growth of the market, whatever the
/// treasury rate.
pub proof fn lemma_cost_of_equity_at_beta_one(w: Wacc)
    requires
        w.beta == ONE,
        sub_spec(w.presumed_market_growth as int, w.ten_year_treasury_rate as int) is Some,
    ensures
        w.capital_asset_pricing_model_spec() == Some(w.presumed_market_growth as int),
{
    let premium = w.presumed_market_growth - w.ten_year_treasury_rate;
    if premium >= 0 {
        assert(1_000_000 * premium >= 0 && (1_000_000 * premium) / 1_000_000 == premium)
            by (nonlinear_arith)
            requires
                premium >= 0,
        ;
    } else {
        assert(1_000_000 * premium < 0 && (-(1_000_000 * premium)) / 1_000_000 == -premium)
            by (nonlinear_arith)
            requires
                premium < 0,
        ;
    }
}

/// A company without debt has no cost of capital.
pub proof fn lemma_no_debt_no_wacc(w: Wacc)
    requires
        w.long_term_debt + w.total_current_liabilities == 0,
    ensures
        w.wacc_spec() is None,
{
}

} // verus!
