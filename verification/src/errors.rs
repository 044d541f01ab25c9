//! The failures that the library reports.

use vstd::prelude::*;

verus! {

/// Why an operation was refused.
#[derive(Debug)]
pub enum AppError {
    /// A request that cannot be served as it stands; the text says why.
    BadRequest(String),
    /// An unknown strategy or task.
    NotFound(String),
    /// The candle window of a backtest is empty.
    NoData,
    /// A trading operation was asked for before any candle was fed.
    NoCandle,
    /// The amount is not positive once it is rounded.
    InvalidAmount,
    /// The balance does not cover the cost, or the fee, of the operation.
    InsufficientFunds,
    /// The position does not cover the amount to sell.
    InsufficientPosition,
    /// The fee of a sale exceeds its proceeds.
    NegativeRevenue,
    /// The strategy callback failed; the text is its own.
    Strategy(String),
    /// A failure of a collaborator, or of the machine.
    Internal(String),
}

/// The kind of an [`AppError`], without its text.
#[derive(Clone, Copy, Debug, PartialEq, Eq, Structural)]
pub enum ErrorKind {
    BadRequest,
    NotFound,
    NoData,
    NoCandle,
    InvalidAmount,
    InsufficientFunds,
    InsufficientPosition,
    NegativeRevenue,
    Strategy,
    Internal,
}

pub type AppResult<T> = Result<T, AppError>;

impl AppError {
    /// The kind of the error.
    pub open spec fn kind_of(self) -> ErrorKind {
        match self {
            AppError::BadRequest(_) => ErrorKind::BadRequest,
            AppError::NotFound(_) => ErrorKind::NotFound,
            AppError::NoData => ErrorKind::NoData,
            AppError::NoCandle => ErrorKind::NoCandle,
            AppError::InvalidAmount => ErrorKind::InvalidAmount,
            AppError::InsufficientFunds => ErrorKind::InsufficientFunds,
            AppError::InsufficientPosition => ErrorKind::InsufficientPosition,
            AppError::NegativeRevenue => ErrorKind::NegativeRevenue,
            AppError::Strategy(_) => ErrorKind::Strategy,
            AppError::Internal(_) => ErrorKind::Internal,
        }
    }

    /// The kind of the error.
    pub fn kind(&self) -> (r: ErrorKind)
        ensures
            r == self.kind_of(),
    {
        match self {
            AppError::BadRequest(_) => ErrorKind::BadRequest,
            AppError::NotFound(_) => ErrorKind::NotFound,
            AppError::NoData => ErrorKind::NoData,
            AppError::NoCandle => ErrorKind::NoCandle,
            AppError::InvalidAmount => ErrorKind::InvalidAmount,
            AppError::InsufficientFunds => ErrorKind::InsufficientFunds,
            AppError::InsufficientPosition => ErrorKind::InsufficientPosition,
            AppError::NegativeRevenue => ErrorKind::NegativeRevenue,
            AppError::Strategy(_) => ErrorKind::Strategy,
            AppError::Internal(_) => ErrorKind::Internal,
        }
    }

    /// The text shown to a user for the error.
    pub open spec fn message_of(self) -> Seq<char> {
        match self {
            AppError::BadRequest(text) => text@,
            AppError::NotFound(text) => text@,
            AppError::NoData => "No candles available for backtest"@,
            AppError::NoCandle => "No candles available"@,
            AppError::InvalidAmount => "Amount must be positive"@,
            AppError::InsufficientFunds => "Insufficient funds"@,
            AppError::InsufficientPosition => "Insufficient base asset amount to sell"@,
            AppError::NegativeRevenue => "Revenue cannot be negative"@,
            AppError::Strategy(text) => text@,
            AppError::Internal(text) => text@,
        }
    }

    /// The text shown to a user for the error.
    pub fn message(&self) -> (r: String)
        ensures
            r@ == self.message_of(),
    {
        match self {
            AppError::BadRequest(text) => text.clone(),
            AppError::NotFound(text) => text.clone(),
            AppError::NoData => "No candles available for backtest".to_owned(),
            AppError::NoCandle => "No candles available".to_owned(),
            AppError::InvalidAmount => "Amount must be positive".to_owned(),
            AppError::InsufficientFunds => "Insufficient funds".to_owned(),
            AppError::InsufficientPosition => "Insufficient base asset amount to sell".to_owned(),
            AppError::NegativeRevenue => "Revenue cannot be negative".to_owned(),
            AppError::Strategy(text) => text.clone(),
            AppError::Internal(text) => text.clone(),
        }
    }
}

} // verus!
