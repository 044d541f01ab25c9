//! What the enclosing service asks of the library.

pub mod backtest;
