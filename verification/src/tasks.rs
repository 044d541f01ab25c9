//! A backtest as a task: the statistic of a run and the life of the task.

pub mod backtest;
pub mod runner;
pub mod statistic;
