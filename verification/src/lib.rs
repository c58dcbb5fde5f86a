//! Discounted-cash-flow valuation of listed companies.
//!
//! Every quantity is an integer. Amounts of money are whole currency units
//! held in `i64`. Rates, ratios and per-share figures are signed fixed-point
//! numbers with six fractional digits (see [`fixed`]), so a valuation is the
//! same on every machine. Present values are carried in millionths of a
//! currency unit until the fair value per share is rounded, once.

pub mod error;
pub mod fixed;
pub mod models;
pub mod normalize;
pub mod growth;
pub mod dcf;
pub mod wacc;
pub mod method;
pub mod evaluate;
pub mod provider;
pub mod text;
