//! What a strategy sees and acts on while a backtest runs.

pub mod context;
pub mod model;

pub use context::{Order, OrderType, StrategyContext, Trade, TradeType};
