//! Backtest execution core: decimal quantities, the simulation context,
//! the candle-stepped runner, the statistic pass and the task lifecycle.

pub mod decimal;
pub mod errors;
pub mod handlers;
pub mod models;
pub mod strategy;
pub mod tasks;
pub mod utils;
