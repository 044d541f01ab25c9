//! The candle-stepped run of a backtest.
//!
//! A run feeds the candles one by one. For each candle the runner first
//! matches the resting orders against it, then the strategy has its turn on
//! the context, then the runner closes the candle and says whether progress
//! is to be reported. After the last candle the runner cancels what still
//! rests and draws up the statistic. The runner makes every decision of the
//! run; the strategy's turn itself is taken by the caller.

use crate::decimal::{Decimal, DecimalView};
use crate::errors::{AppError, AppResult};
use crate::models::candle::Candle;
use crate::models::exchange::{MarketPrecision, TradingFees};
use crate::strategy::context::StrategyContext;
use crate::strategy::model::ContextView;
use crate::tasks::backtest::{BacktestStatistic, StatisticView};
use crate::tasks::statistic::{calculate_backtest_statistic, replay_all, summary};
use vstd::prelude::*;

verus! {

/// The number of candles between two reports of progress, unless the
/// configuration says otherwise.
pub const BACKTEST_BROADCAST_INTERVAL: usize = 100;

/// The capital that a run starts with, in whole units, unless the
/// configuration says otherwise.
pub const INITIAL_CAPITAL: i64 = 10000;

/// What can be set for a run.
#[derive(Debug)]
pub struct BacktestConfig {
    /// The cash that the run starts with.
    pub initial_capital: Decimal,
    /// The number of candles between two reports of progress.
    pub broadcast_interval_candles: usize,
}

impl Default for BacktestConfig {
    fn default() -> (r: Self)
        ensures
            r.initial_capital@ == (DecimalView { unscaled: INITIAL_CAPITAL as int, scale: 0 }),
            r.initial_capital.value() == INITIAL_CAPITAL as real,
            r.broadcast_interval_candles == BACKTEST_BROADCAST_INTERVAL,
    {
        BacktestConfig {
            initial_capital: Decimal::from_i64(INITIAL_CAPITAL),
            broadcast_interval_candles: BACKTEST_BROADCAST_INTERVAL,
        }
    }
}

/// How far a run has come: `done` of `total` candles.
#[derive(Clone, Copy, Debug, PartialEq, Eq, Structural)]
pub struct Progress {
    pub done: usize,
    pub total: usize,
}

/// A run in progress.
#[derive(Debug)]
pub struct BacktestRunner {
    context: StrategyContext,
    initial_capital: Decimal,
    interval: usize,
    index: usize,
    total: usize,
}

/// The mathematical content of a [`BacktestRunner`].
pub ghost struct RunnerView {
    pub context: ContextView,
    pub initial_capital: DecimalView,
    /// The number of candles between two reports of progress.
    pub interval: nat,
    /// The number of candles closed so far.
    pub index: nat,
    /// The number of candles of the run.
    pub total: nat,
}

impl View for BacktestRunner {
    type V = RunnerView;

    closed spec fn view(&self) -> RunnerView {
        RunnerView {
            context: self.context@,
            initial_capital: self.initial_capital@,
            interval: self.interval as nat,
            index: self.index as nat,
            total: self.total as nat,
        }
    }
}

impl RunnerView {
    /// What holds of a run between two steps.
    pub open spec fn wf(self) -> bool {
        &&& self.context.wf()
        &&& self.initial_capital.is_input()
        &&& self.interval > 0
        &&& self.index <= self.total
        &&& self.total <= usize::MAX
    }

    /// Whether progress is reported when the candle now open is closed.
    pub open spec fn reports(self) -> bool {
        self.interval > 0 && self.index % self.interval == 0
    }
}

impl BacktestRunner {
    /// Whether the run is in a state that its steps keep up.
    pub open spec fn wf(&self) -> bool {
        self@.wf()
    }

    /// A run over `total` candles, configured by `config`. A run over no
    /// candle is refused.
    pub fn start(
        total: usize,
        config: BacktestConfig,
        fees: TradingFees,
        precision: MarketPrecision,
    ) -> (r: AppResult<BacktestRunner>)
        requires
            config.initial_capital@.is_input(),
            config.broadcast_interval_candles > 0,
            fees@.wf(),
            precision@.wf(),
        ensures
            match r {
                Ok(runner) => {
                    &&& total > 0
                    &&& runner.wf()
                    &&& runner@.index == 0
                    &&& runner@.total == total
                    &&& (config.initial_capital.value() >= 0real ==> runner@.context.solvent())
                    &&& runner@.interval == config.broadcast_interval_candles
                    &&& runner@.initial_capital == config.initial_capital@
                    &&& runner@.context == (ContextView {
                        candles: Seq::empty(),
                        balance: config.initial_capital@,
                        position: DecimalView { unscaled: 0, scale: 0 },
                        trades: Seq::empty(),
                        orders: Seq::empty(),
                        fees: fees@,
                        precision: precision@,
                        issued: Seq::empty(),
                        opening: config.initial_capital.value(),
                    })
                },
                Err(e) => total == 0 && e == AppError::NoData,
            },
    {
        if total == 0 {
            return Err(AppError::NoData);
        }
        let capital = config.initial_capital.clone();
        match StrategyContext::new(config.initial_capital, fees, precision) {
            Ok(context) => Ok(
                BacktestRunner {
                    context,
                    initial_capital: capital,
                    interval: config.broadcast_interval_candles,
                    index: 0,
                    total,
                },
            ),
            Err(e) => Err(e),
        }
    }

    /// Opens the next candle: feeds it to the context and matches the
    /// resting orders against it. After this the strategy has its turn.
    pub fn open_candle(&mut self, candle: Candle)
        requires
            old(self).wf(),
            old(self)@.index < old(self)@.total,
            candle@.is_input(),
            old(self)@.context.candles.len() > 0 ==> old(self)@.context.last_candle().timestamp
                < candle@.timestamp,
        ensures
            final(self).wf(),
            old(self)@.context.solvent() ==> final(self)@.context.solvent(),
            final(self)@ == (RunnerView {
                context: old(self)@.context.feed(candle@).before(),
                ..old(self)@
            }),
    {
        self.context.feed(candle);
        let matched = self.context.before();
        assert(matched is Ok);
    }

    /// The context, for the strategy's turn.
    pub fn context(&self) -> (r: &StrategyContext)
        ensures
            r@ == self@.context,
    {
        &self.context
    }

    /// The context, for the strategy's turn: whatever the turn does to the
    /// context is what the run goes on with.
    pub fn context_mut(&mut self) -> (r: &mut StrategyContext)
        ensures
            r@ == old(self)@.context,
            final(self)@ == (RunnerView { context: final(r)@, ..old(self)@ }),
    {
        &mut self.context
    }

    /// Ends the run after the last candle: cancels what still rests and
    /// draws up the statistic from the candles and the journal. There is no
    /// statistic where the journal is longer than a signed 64-bit count, or
    /// where the replay meets an average cost that it cannot work on.
    pub fn finish(self) -> (r: Option<BacktestStatistic>)
        requires
            self.wf(),
        ensures
            match Self::statistic_of(self@) {
                Some(view) => r.is_some() && r.unwrap()@ == view,
                None => r.is_none(),
            },
    {
        let mut context = self.context;
        let _ = context.end();
        if context.trades().len() as u64 > 0x7fff_ffff_ffff_ffffu64 {
            return None;
        }
        let candles = context.candles();
        let trades = context.trades();
        proof {
            let state = context@;
            assert forall|i: int| 0 <= i < candles@.len() implies (#[trigger] candles@[i])@.is_input() by {
                assert(state.candles[i] == candles@[i]@);
            }
            assert forall|i: int| 0 <= i < trades@.len() implies (#[trigger] trades@[i])@.is_entry() by {
                assert(state.trades[i] == trades@[i]@);
            }
        }
        calculate_backtest_statistic(self.initial_capital, candles, trades)
    }

    /// The statistic that a run in state `run` ends with, if it has one.
    pub open spec fn statistic_of(run: RunnerView) -> Option<StatisticView> {
        let ended = run.context.end();
        if ended.trades.len() > i64::MAX {
            None
        } else {
            match replay_all(run.initial_capital, ended.candles, ended.trades) {
                Some(tally) => Some(summary(run.initial_capital, tally)),
                None => None,
            }
        }
    }

    /// Closes the candle now open, after the strategy's turn, and says how
    /// far the run has come where that is to be reported: at the first
    /// candle and then at every candle a whole number of intervals after it.
    pub fn close_candle(&mut self) -> (r: Option<Progress>)
        requires
            old(self).wf(),
            old(self)@.index < old(self)@.total,
        ensures
            final(self).wf(),
            final(self)@ == (RunnerView { index: old(self)@.index + 1, ..old(self)@ }),
            r == if old(self)@.reports() {
                Some(Progress { done: (old(self)@.index + 1) as usize, total: old(self)@.total as usize })
            } else {
                None
            },
    {
        let _ = self.context.after();
        let report = if self.index % self.interval == 0 {
            Some(Progress { done: self.index + 1, total: self.total })
        } else {
            None
        };
        self.index = self.index + 1;
        report
    }
}

} // verus!
