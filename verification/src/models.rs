//! The plain data of the simulation: candles, fees and precision.

pub mod candle;
pub mod exchange;

pub use candle::Candle;
pub use exchange::{MarketPrecision, TradingFees};
