//! The result of a backtest and the life of the task that runs it.

use crate::decimal::{Decimal, DecimalView};
use crate::errors::AppResult;
use crate::models::exchange::{MarketPrecision, PrecisionView};
use crate::tasks::runner::Progress;
use crate::strategy::context::{trade_views, Trade, TradeView};
use vstd::prelude::*;

verus! {

/// A ratio of two decimals that may have no finite value.
#[derive(Debug)]
pub enum Ratio {
    /// Nothing over nothing: counted as zero.
    Zero,
    /// Something over nothing: without bound.
    Infinite,
    /// The quotient of the two.
    Finite(Decimal),
}

/// The mathematical content of a [`Ratio`].
pub ghost enum RatioView {
    Zero,
    Infinite,
    Finite(DecimalView),
}

impl View for Ratio {
    type V = RatioView;

    open spec fn view(&self) -> RatioView {
        match self {
            Ratio::Zero => RatioView::Zero,
            Ratio::Infinite => RatioView::Infinite,
            Ratio::Finite(d) => RatioView::Finite(d@),
        }
    }
}

/// What the Sharpe ratio of a run is taken from.
#[derive(Debug)]
pub enum SharpeBasis {
    /// No sell with a profit or loss: the ratio is zero.
    Zero,
    /// One such sell: the ratio is without bound.
    Infinite,
    /// The profits of the sells that have one other than zero, in order.
    /// The ratio is the mean of their returns on the initial capital over
    /// the standard deviation of those returns, and without bound where
    /// that deviation is zero.
    Sample(Vec<Decimal>),
}

/// The mathematical content of a [`SharpeBasis`].
pub ghost enum SharpeBasisView {
    Zero,
    Infinite,
    Sample(Seq<DecimalView>),
}

/// The decimals of a sequence, each by its view.
pub open spec fn decimal_views(decimals: Seq<Decimal>) -> Seq<DecimalView> {
    decimals.map_values(|d: Decimal| d@)
}

impl View for SharpeBasis {
    type V = SharpeBasisView;

    open spec fn view(&self) -> SharpeBasisView {
        match self {
            SharpeBasis::Zero => SharpeBasisView::Zero,
            SharpeBasis::Infinite => SharpeBasisView::Infinite,
            SharpeBasis::Sample(profits) => SharpeBasisView::Sample(decimal_views(profits@)),
        }
    }
}

/// The summary of a run. Where the summary of a float would stand, it
/// holds the decimals that the float is taken from: the return, the
/// deepest drawdown and the profit factor as ratios, the win rate as its
/// two counts, the Sharpe ratio as its sample.
#[derive(Debug)]
pub struct BacktestStatistic {
    pub trades: Vec<Trade>,
    pub initial_capital: Decimal,
    pub total_cost: Decimal,
    pub net_profit: Decimal,
    /// The net profit over the initial capital; none where that is zero.
    pub return_ratio: Option<Decimal>,
    pub max_equity: Decimal,
    pub max_drawdown: Decimal,
    /// The deepest drawdown over the highest equity of its time; none where
    /// there was no drawdown from an equity other than zero.
    pub max_drawdown_ratio: Option<Decimal>,
    pub gross_profit: Decimal,
    pub gross_loss: Decimal,
    pub profit_factor: Ratio,
    pub sharpe_basis: SharpeBasis,
    pub total_trades: usize,
    pub buy_trades: usize,
    pub sell_trades: usize,
    pub winning_trades: usize,
    pub losing_trades: usize,
    pub avg_win: Decimal,
    pub avg_loss: Decimal,
    pub largest_win: Decimal,
    pub largest_loss: Decimal,
}

/// The mathematical content of a [`BacktestStatistic`].
pub ghost struct StatisticView {
    pub trades: Seq<TradeView>,
    pub initial_capital: DecimalView,
    pub total_cost: DecimalView,
    pub net_profit: DecimalView,
    pub return_ratio: Option<DecimalView>,
    pub max_equity: DecimalView,
    pub max_drawdown: DecimalView,
    pub max_drawdown_ratio: Option<DecimalView>,
    pub gross_profit: DecimalView,
    pub gross_loss: DecimalView,
    pub profit_factor: RatioView,
    pub sharpe_basis: SharpeBasisView,
    pub total_trades: nat,
    pub buy_trades: nat,
    pub sell_trades: nat,
    pub winning_trades: nat,
    pub losing_trades: nat,
    pub avg_win: DecimalView,
    pub avg_loss: DecimalView,
    pub largest_win: DecimalView,
    pub largest_loss: DecimalView,
}

/// The view of a decimal that may be absent.
pub open spec fn optional_view(decimal: Option<Decimal>) -> Option<DecimalView> {
    match decimal {
        Some(d) => Some(d@),
        None => None,
    }
}

impl View for BacktestStatistic {
    type V = StatisticView;

    open spec fn view(&self) -> StatisticView {
        StatisticView {
            trades: trade_views(self.trades@),
            initial_capital: self.initial_capital@,
            total_cost: self.total_cost@,
            net_profit: self.net_profit@,
            return_ratio: optional_view(self.return_ratio),
            max_equity: self.max_equity@,
            max_drawdown: self.max_drawdown@,
            max_drawdown_ratio: optional_view(self.max_drawdown_ratio),
            gross_profit: self.gross_profit@,
            gross_loss: self.gross_loss@,
            profit_factor: self.profit_factor@,
            sharpe_basis: self.sharpe_basis@,
            total_trades: self.total_trades as nat,
            buy_trades: self.buy_trades as nat,
            sell_trades: self.sell_trades as nat,
            winning_trades: self.winning_trades as nat,
            losing_trades: self.losing_trades as nat,
            avg_win: self.avg_win@,
            avg_loss: self.avg_loss@,
            largest_win: self.largest_win@,
            largest_loss: self.largest_loss@,
        }
    }
}

/// Where a task stands in its life.
#[derive(Clone, Copy, Debug, PartialEq, Eq, Structural)]
pub enum BacktestStatus {
    Pending,
    Running,
    Completed,
    Failed,
}

impl BacktestStatus {
    /// Whether the task has come to its end.
    pub open spec fn is_terminal(self) -> bool {
        self == BacktestStatus::Completed || self == BacktestStatus::Failed
    }
}

/// What happens to a task.
#[derive(Debug)]
pub enum TaskEvent {
    /// The run begins.
    Started,
    /// The run has come this far.
    Progressed(Progress),
    /// The run has ended with this statistic.
    Completed(BacktestStatistic),
    /// The setup or the run has failed with this message.
    Failed(String),
}

impl TaskEvent {
    /// Whether a task in `status` takes the event: a pending task may start
    /// or fail, a running task may progress, complete or fail, and a task
    /// at its end takes nothing.
    pub open spec fn accepted_in(self, status: BacktestStatus) -> bool {
        match self {
            TaskEvent::Started => status == BacktestStatus::Pending,
            TaskEvent::Progressed(_) => status == BacktestStatus::Running,
            TaskEvent::Completed(_) => status == BacktestStatus::Running,
            TaskEvent::Failed(_) => status == BacktestStatus::Pending || status
                == BacktestStatus::Running,
        }
    }

    /// The status that the event leads to.
    pub open spec fn leads_to(self) -> BacktestStatus {
        match self {
            TaskEvent::Started => BacktestStatus::Running,
            TaskEvent::Progressed(_) => BacktestStatus::Running,
            TaskEvent::Completed(_) => BacktestStatus::Completed,
            TaskEvent::Failed(_) => BacktestStatus::Failed,
        }
    }
}

/// A backtest as a task. The identifier is a UUID as a 128-bit integer, and
/// the times are in milliseconds since the Unix epoch.
#[derive(Debug)]
pub struct BacktestTask {
    pub id: u128,
    pub status: BacktestStatus,
    pub progress: Progress,
    pub name: String,
    pub exchange: String,
    pub symbol: String,
    pub timeframe: String,
    pub precision: MarketPrecision,
    pub statistic: Option<BacktestStatistic>,
    pub error_message: Option<String>,
    pub created_at: i64,
    pub started_at: Option<i64>,
    pub completed_at: Option<i64>,
    pub updated_at: i64,
}

/// The view of a statistic that may be absent.
pub open spec fn optional_statistic(statistic: Option<BacktestStatistic>) -> Option<
    StatisticView,
> {
    match statistic {
        Some(s) => Some(s@),
        None => None,
    }
}

/// The view of a text that may be absent.
pub open spec fn optional_text(text: Option<String>) -> Option<Seq<char>> {
    match text {
        Some(t) => Some(t@),
        None => None,
    }
}

/// The mathematical content of a [`BacktestTask`].
pub ghost struct TaskView {
    pub id: u128,
    pub status: BacktestStatus,
    pub progress: Progress,
    pub name: Seq<char>,
    pub exchange: Seq<char>,
    pub symbol: Seq<char>,
    pub timeframe: Seq<char>,
    pub precision: PrecisionView,
    pub statistic: Option<StatisticView>,
    pub error_message: Option<Seq<char>>,
    pub created_at: int,
    pub started_at: Option<int>,
    pub completed_at: Option<int>,
    pub updated_at: int,
}

impl View for BacktestTask {
    type V = TaskView;

    open spec fn view(&self) -> TaskView {
        TaskView {
            id: self.id,
            status: self.status,
            progress: self.progress,
            name: self.name@,
            exchange: self.exchange@,
            symbol: self.symbol@,
            timeframe: self.timeframe@,
            precision: self.precision@,
            statistic: optional_statistic(self.statistic),
            error_message: optional_text(self.error_message),
            created_at: self.created_at as int,
            started_at: match self.started_at {
                Some(t) => Some(t as int),
                None => None,
            },
            completed_at: match self.completed_at {
                Some(t) => Some(t as int),
                None => None,
            },
            updated_at: self.updated_at as int,
        }
    }
}

impl TaskView {
    /// The task after `event` at the time `now`: as it was where its status
    /// does not take the event; else in the status that the event leads to
    /// and updated at `now`, with the start time set by a start, the
    /// progress by a progress, the statistic, full progress and the end
    /// time by a completion, and the message and the end time by a failure.
    pub open spec fn after(self, event: TaskEvent, now: int) -> TaskView {
        if !event.accepted_in(self.status) {
            self
        } else {
            let next = TaskView { status: event.leads_to(), updated_at: now, ..self };
            match event {
                TaskEvent::Started => TaskView { started_at: Some(now), ..next },
                TaskEvent::Progressed(progress) => TaskView { progress, ..next },
                TaskEvent::Completed(statistic) => TaskView {
                    progress: Progress { done: 1, total: 1 },
                    statistic: Some(statistic@),
                    completed_at: Some(now),
                    ..next
                },
                TaskEvent::Failed(message) => TaskView {
                    error_message: Some(message@),
                    completed_at: Some(now),
                    ..next
                },
            }
        }
    }
}

impl BacktestTask {
    /// A pending task, created at the time `now`.
    pub fn new(
        id: u128,
        name: String,
        exchange: String,
        symbol: String,
        timeframe: String,
        precision: MarketPrecision,
        now: i64,
    ) -> (r: BacktestTask)
        ensures
            r@ == (TaskView {
                id,
                status: BacktestStatus::Pending,
                progress: Progress { done: 0, total: 1 },
                name: name@,
                exchange: exchange@,
                symbol: symbol@,
                timeframe: timeframe@,
                precision: precision@,
                statistic: None,
                error_message: None,
                created_at: now as int,
                started_at: None,
                completed_at: None,
                updated_at: now as int,
            }),
    {
        BacktestTask {
            id,
            status: BacktestStatus::Pending,
            progress: Progress { done: 0, total: 1 },
            name,
            exchange,
            symbol,
            timeframe,
            precision,
            statistic: None,
            error_message: None,
            created_at: now,
            started_at: None,
            completed_at: None,
            updated_at: now,
        }
    }

    /// Takes `event` at the time `now`, and says whether the task changed
    /// and is to be broadcast.
    pub fn apply(&mut self, event: TaskEvent, now: i64) -> (r: bool)
        ensures
            r == event.accepted_in(old(self).status),
            final(self)@ == old(self)@.after(event, now as int),
    {
        match event {
            TaskEvent::Started => {
                if self.status != BacktestStatus::Pending {
                    return false;
                }
                self.status = BacktestStatus::Running;
                self.started_at = Some(now);
            },
            TaskEvent::Progressed(progress) => {
                if self.status != BacktestStatus::Running {
                    return false;
                }
                self.progress = progress;
            },
            TaskEvent::Completed(statistic) => {
                if self.status != BacktestStatus::Running {
                    return false;
                }
                self.status = BacktestStatus::Completed;
                self.progress = Progress { done: 1, total: 1 };
                self.statistic = Some(statistic);
                self.completed_at = Some(now);
            },
            TaskEvent::Failed(message) => {
                if self.status != BacktestStatus::Pending && self.status
                    != BacktestStatus::Running {
                    return false;
                }
                self.status = BacktestStatus::Failed;
                self.error_message = Some(message);
                self.completed_at = Some(now);
            },
        }
        self.updated_at = now;
        true
    }

    /// The event that the outcome of a run stands for: a completion with
    /// the statistic, or a failure with the error's message.
    pub fn conclude(outcome: AppResult<BacktestStatistic>) -> (r: TaskEvent)
        ensures
            match outcome {
                Ok(statistic) => r == TaskEvent::Completed(statistic),
                Err(e) => (r matches TaskEvent::Failed(message) && message@ == e.message_of()),
            },
    {
        match outcome {
            Ok(statistic) => TaskEvent::Completed(statistic),
            Err(e) => TaskEvent::Failed(e.message()),
        }
    }
}

/// A task at its end stays as it is, whatever happens.
pub proof fn lemma_terminal_absorbing(task: TaskView, event: TaskEvent, now: int)
    requires
        task.status.is_terminal(),
    ensures
        task.after(event, now) == task,
{
}

/// A task never goes back: from pending it goes to running or failed,
/// from running to running, completed or failed, and from nowhere to
/// pending.
pub proof fn lemma_status_order(task: TaskView, event: TaskEvent, now: int)
    ensures
        task.after(event, now).status == task.status || match task.status {
            BacktestStatus::Pending => task.after(event, now).status == BacktestStatus::Running
                || task.after(event, now).status == BacktestStatus::Failed,
            BacktestStatus::Running => task.after(event, now).status.is_terminal(),
            _ => false,
        },
{
}

} // verus!
