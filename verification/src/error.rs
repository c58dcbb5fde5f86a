//! The failures a valuation can end in.

use vstd::prelude::*;

verus! {

/// Why a valuation, or one step of it, could not be completed.
#[derive(Clone, Copy, Debug, PartialEq, Eq, Structural)]
pub enum ValuationError {
    /// The data provider could not be reached.
    NetworkError,
    /// The provider's answer could not be decoded.
    DeserializationError,
    /// The provider answered with a failure status.
    ProviderStatusError,
    /// A series is missing, empty, or its fiscal years do not line up.
    ProviderDataError,
    /// A division by zero, a non-positive discount spread, or a figure too
    /// large to be represented.
    ArithmeticError,
    /// A fiscal-period label is not of the form `FY <year>`.
    ParseError,
    /// Credentials or the provider's base URL are missing.
    ConfigError,
}

/// What a failure is called in a message.
pub open spec fn failure_name(failure: ValuationError) -> Seq<char> {
    match failure {
        ValuationError::NetworkError => "the data provider could not be reached"@,
        ValuationError::DeserializationError => "the answer of the data provider could not be read"@,
        ValuationError::ProviderStatusError => "the data provider reported a failure"@,
        ValuationError::ProviderDataError => "the data of the provider is incomplete"@,
        ValuationError::ArithmeticError => "a figure is undefined"@,
        ValuationError::ParseError => "a fiscal period is malformed"@,
        ValuationError::ConfigError => "the configuration is incomplete"@,
    }
}

impl ValuationError {
    /// The failure in words.
    pub fn message(&self) -> (text: &'static str)
        ensures
            text@ == failure_name(*self),
    {
        match self {
            ValuationError::NetworkError => "the data provider could not be reached",
            ValuationError::DeserializationError => {
                "the answer of the data provider could not be read"
            },
            ValuationError::ProviderStatusError => "the data provider reported a failure",
            ValuationError::ProviderDataError => "the data of the provider is incomplete",
            ValuationError::ArithmeticError => "a figure is undefined",
            ValuationError::ParseError => "a fiscal period is malformed",
            ValuationError::ConfigError => "the configuration is incomplete",
        }
    }
}

/// The result that stands for an optional amount: the amount, or an
/// arithmetic failure where there is none.
pub open spec fn amount_or_failure(amount: Option<int>) -> Result<i64, ValuationError> {
    match amount {
        Some(v) => Ok(v as i64),
        None => Err(ValuationError::ArithmeticError),
    }
}

} // verus!
