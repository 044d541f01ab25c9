//! The statistic pass: a replay of the journal against the candles.
//!
//! The replay books every trade on a running account, gives each sell its
//! realized profit against the average cost of the position, and marks the
//! account to each candle's high and low for the highest equity and the
//! deepest drawdown.

use crate::decimal::{
    decimal_difference, decimal_product, decimal_quotient, decimal_rounded, decimal_sum,
    lemma_value_sign, Decimal, DecimalView, RoundingMode,
};
use crate::tasks::backtest::{
    decimal_views, BacktestStatistic, Ratio, RatioView, SharpeBasis, SharpeBasisView,
    StatisticView,
};
use crate::models::candle::{candle_views, Candle, CandleView};
use crate::strategy::context::{trade_views, Trade, TradeView};
use crate::strategy::model::{journal_cash, journal_position, lemma_journal_push, ContextView};
use vstd::prelude::*;

verus! {

/// The decimal zero, as it is first written.
pub open spec fn zero() -> DecimalView {
    DecimalView { unscaled: 0, scale: 0 }
}

/// The state of the replay.
pub ghost struct TallyView {
    /// The capital that the replay started from.
    pub initial_capital: DecimalView,
    pub balance: DecimalView,
    pub position: DecimalView,
    pub total_cost: DecimalView,
    pub max_equity: DecimalView,
    pub max_drawdown: DecimalView,
    /// The deepest drawdown as a fraction of the highest equity of its
    /// time, once there was one with an equity other than zero.
    pub drawdown_ratio: Option<DecimalView>,
    pub buy_trades: nat,
    pub sell_trades: nat,
    pub winning_trades: nat,
    pub losing_trades: nat,
    pub gross_profit: DecimalView,
    pub gross_loss: DecimalView,
    pub largest_win: DecimalView,
    pub largest_loss: DecimalView,
    /// The trades booked so far, each sell with its profit.
    pub trades: Seq<TradeView>,
}

impl TallyView {
    /// The state before the first trade.
    pub open spec fn start(initial_capital: DecimalView) -> TallyView {
        TallyView {
            initial_capital,
            balance: initial_capital,
            position: zero(),
            total_cost: zero(),
            max_equity: initial_capital,
            max_drawdown: zero(),
            drawdown_ratio: None,
            buy_trades: 0,
            sell_trades: 0,
            winning_trades: 0,
            losing_trades: 0,
            gross_profit: zero(),
            gross_loss: zero(),
            largest_win: zero(),
            largest_loss: zero(),
            trades: Seq::empty(),
        }
    }

    /// The state with a buy booked: cost and fee leave the balance and join
    /// the cost of the position.
    pub open spec fn buy(self, trade: TradeView) -> TallyView {
        let cost = decimal_sum(decimal_product(trade.price, trade.amount), trade.fee);
        TallyView {
            buy_trades: self.buy_trades + 1,
            total_cost: decimal_sum(self.total_cost, cost),
            balance: decimal_difference(self.balance, cost),
            position: decimal_sum(self.position, trade.amount),
            trades: self.trades.push(trade),
            ..self
        }
    }

    /// The average cost of a unit of the position: zero where there is no
    /// position.
    pub open spec fn average_cost(self) -> DecimalView {
        if self.position.value() == 0real {
            zero()
        } else {
            decimal_quotient(self.total_cost, self.position)
        }
    }

    /// The state with a sell booked at `average_cost` per unit: the
    /// proceeds less the fee join the balance, the profit is what they
    /// exceed the cost of the amount sold by, and the cost of the position
    /// shrinks by that cost, to zero where nothing is left.
    pub open spec fn sell(self, trade: TradeView, average_cost: DecimalView) -> TallyView {
        let proceeds = decimal_product(trade.price, trade.amount);
        let revenue = decimal_difference(proceeds, trade.fee);
        let used = decimal_product(average_cost, trade.amount);
        let profit = decimal_difference(revenue, used);
        let position = decimal_difference(self.position, trade.amount);
        let won = profit.value() > 0real;
        let lost = profit.value() < 0real;
        TallyView {
            sell_trades: self.sell_trades + 1,
            position,
            balance: decimal_sum(self.balance, revenue),
            total_cost: if position.value() == 0real {
                zero()
            } else {
                decimal_difference(self.total_cost, used)
            },
            winning_trades: if won {
                self.winning_trades + 1
            } else {
                self.winning_trades
            },
            gross_profit: if won {
                decimal_sum(self.gross_profit, profit)
            } else {
                self.gross_profit
            },
            largest_win: if won && profit.value() > self.largest_win.value() {
                profit
            } else {
                self.largest_win
            },
            losing_trades: if lost {
                self.losing_trades + 1
            } else {
                self.losing_trades
            },
            gross_loss: if lost {
                decimal_sum(self.gross_loss, profit)
            } else {
                self.gross_loss
            },
            largest_loss: if lost && profit.value() < self.largest_loss.value() {
                profit
            } else {
                self.largest_loss
            },
            trades: self.trades.push(TradeView { profit: Some(profit), ..trade }),
            ..self
        }
    }

    /// The state with `trade` booked; none where the average cost of a sell
    /// has a scale too large to work on.
    pub open spec fn record(self, trade: TradeView) -> Option<TallyView> {
        if trade.trade_type.is_buy_spec() {
            Some(self.buy(trade))
        } else if self.average_cost().is_moderate() {
            Some(self.sell(trade, self.average_cost()))
        } else {
            None
        }
    }

    /// The state with the trades from `from` up to `to` booked, in order.
    pub open spec fn record_all(self, trades: Seq<TradeView>, from: int, to: int) -> Option<
        TallyView,
    >
        recommends
            0 <= from <= to <= trades.len(),
        decreases to - from,
    {
        if from >= to {
            Some(self)
        } else {
            match self.record_all(trades, from, to - 1) {
                Some(tally) => tally.record(trades[to - 1]),
                None => None,
            }
        }
    }

    /// The state marked to `candle`: the equity at the candle's high raises
    /// the highest equity, and the fall from there to the equity at the
    /// candle's low deepens the drawdown.
    pub open spec fn mark(self, candle: CandleView) -> TallyView {
        let high_value = decimal_sum(decimal_product(self.position, candle.high), self.balance);
        let max_equity = if high_value.value() > self.max_equity.value() {
            high_value
        } else {
            self.max_equity
        };
        let low_value = decimal_sum(decimal_product(self.position, candle.low), self.balance);
        let drawdown = decimal_difference(max_equity, low_value);
        if drawdown.value() > self.max_drawdown.value() {
            TallyView {
                max_equity,
                max_drawdown: drawdown,
                drawdown_ratio: if max_equity.value() != 0real {
                    Some(decimal_quotient(drawdown, max_equity))
                } else {
                    self.drawdown_ratio
                },
                ..self
            }
        } else {
            TallyView { max_equity, ..self }
        }
    }
}

/// The index of the first trade from `from` on that is later than
/// `timestamp`: the trades before it are due at a candle of that time.
pub open spec fn due(trades: Seq<TradeView>, from: int, timestamp: int) -> int
    recommends
        0 <= from <= trades.len(),
    decreases trades.len() - from,
{
    if from < 0 || from >= trades.len() || trades[from].timestamp > timestamp {
        from
    } else {
        due(trades, from + 1, timestamp)
    }
}

/// The state and the number of trades booked once the first `n` candles
/// are through: before each candle the trades due at it are booked, then
/// the state is marked to the candle.
pub open spec fn replay(
    initial_capital: DecimalView,
    candles: Seq<CandleView>,
    trades: Seq<TradeView>,
    n: nat,
) -> Option<(TallyView, int)>
    recommends
        n <= candles.len(),
    decreases n,
{
    if n == 0 {
        Some((TallyView::start(initial_capital), 0int))
    } else {
        match replay(initial_capital, candles, trades, (n - 1) as nat) {
            Some((tally, booked)) => {
                let upto = due(trades, booked, candles[n - 1].timestamp);
                match tally.record_all(trades, booked, upto) {
                    Some(next) => Some((next.mark(candles[n - 1]), upto)),
                    None => None,
                }
            },
            None => None,
        }
    }
}

/// The state once every candle is through and the trades left over are
/// booked too.
pub open spec fn replay_all(
    initial_capital: DecimalView,
    candles: Seq<CandleView>,
    trades: Seq<TradeView>,
) -> Option<TallyView> {
    match replay(initial_capital, candles, trades, candles.len()) {
        Some((tally, booked)) => tally.record_all(trades, booked, trades.len() as int),
        None => None,
    }
}

/// The profit that the sells of the journal have realized, all in all.
pub open spec fn realized_profit(trades: Seq<TradeView>) -> real
    decreases trades.len(),
{
    if trades.len() == 0 {
        0real
    } else {
        realized_profit(trades.drop_last()) + match trades.last().profit {
            Some(profit) => profit.value(),
            None => 0real,
        }
    }
}

/// One more trade adds its own profit to what the journal has realized.
pub proof fn lemma_realized_push(trades: Seq<TradeView>, trade: TradeView)
    ensures
        realized_profit(trades.push(trade)) == realized_profit(trades) + match trade.profit {
            Some(profit) => profit.value(),
            None => 0real,
        },
{
    assert(trades.push(trade).drop_last() =~= trades);
}

impl TallyView {
    /// What holds of the replay at every point: scales that the
    /// arithmetic accepts, a drawdown and gross profit that are not
    /// negative, a gross loss that is not positive, and counts that add up.
    pub open spec fn wf(self) -> bool {
        &&& self.balance.in_range()
        &&& self.position.within(4)
        &&& self.total_cost.in_range()
        &&& self.max_equity.in_range()
        &&& self.max_drawdown.in_range()
        &&& self.gross_profit.in_range()
        &&& self.gross_loss.in_range()
        &&& self.largest_win.in_range()
        &&& self.largest_loss.in_range()
        &&& self.max_drawdown.value() >= 0real
        &&& self.gross_profit.value() >= 0real
        &&& self.gross_loss.value() <= 0real
        &&& self.largest_win.value() >= 0real
        &&& self.largest_loss.value() <= 0real
        &&& self.buy_trades + self.sell_trades == self.trades.len()
        &&& self.winning_trades + self.losing_trades <= self.sell_trades
        &&& (self.gross_profit.value() > 0real ==> self.winning_trades > 0)
        &&& (self.gross_loss.value() < 0real ==> self.losing_trades > 0)
        &&& self.balance.value() == self.initial_capital.value() + journal_cash(self.trades)
        &&& self.position.value() == journal_position(self.trades)
        &&& self.gross_profit.value() + self.gross_loss.value() == realized_profit(self.trades)
    }
}

/// The running account of the replay.
#[derive(Debug)]
pub struct Tally {
    initial_capital: Decimal,
    balance: Decimal,
    position: Decimal,
    total_cost: Decimal,
    max_equity: Decimal,
    max_drawdown: Decimal,
    drawdown_ratio: Option<Decimal>,
    buy_trades: usize,
    sell_trades: usize,
    winning_trades: usize,
    losing_trades: usize,
    gross_profit: Decimal,
    gross_loss: Decimal,
    largest_win: Decimal,
    largest_loss: Decimal,
    trades: Vec<Trade>,
}

impl View for Tally {
    type V = TallyView;

    closed spec fn view(&self) -> TallyView {
        TallyView {
            initial_capital: self.initial_capital@,
            balance: self.balance@,
            position: self.position@,
            total_cost: self.total_cost@,
            max_equity: self.max_equity@,
            max_drawdown: self.max_drawdown@,
            drawdown_ratio: match self.drawdown_ratio {
                Some(d) => Some(d@),
                None => None,
            },
            buy_trades: self.buy_trades as nat,
            sell_trades: self.sell_trades as nat,
            winning_trades: self.winning_trades as nat,
            losing_trades: self.losing_trades as nat,
            gross_profit: self.gross_profit@,
            gross_loss: self.gross_loss@,
            largest_win: self.largest_win@,
            largest_loss: self.largest_loss@,
            trades: trade_views(self.trades@),
        }
    }
}

impl Tally {
    /// Whether the account is in a state that the replay keeps up.
    pub open spec fn wf(&self) -> bool {
        self@.wf()
    }

    /// The account before the first trade.
    pub fn start(initial_capital: &Decimal) -> (r: Tally)
        requires
            initial_capital@.is_input(),
        ensures
            r.wf(),
            r@ == TallyView::start(initial_capital@),
    {
        let r = Tally {
            initial_capital: initial_capital.clone(),
            balance: initial_capital.clone(),
            position: Decimal::zero(),
            total_cost: Decimal::zero(),
            max_equity: initial_capital.clone(),
            max_drawdown: Decimal::zero(),
            drawdown_ratio: None,
            buy_trades: 0,
            sell_trades: 0,
            winning_trades: 0,
            losing_trades: 0,
            gross_profit: Decimal::zero(),
            gross_loss: Decimal::zero(),
            largest_win: Decimal::zero(),
            largest_loss: Decimal::zero(),
            trades: Vec::new(),
        };
        assert(r@.trades =~= Seq::empty());
        r
    }

    /// The cash of the account.
    pub fn balance(&self) -> (r: Decimal)
        ensures
            r@ == self@.balance,
    {
        self.balance.clone()
    }

    /// The position of the account.
    pub fn position(&self) -> (r: Decimal)
        ensures
            r@ == self@.position,
    {
        self.position.clone()
    }

    /// The highest equity so far.
    pub fn max_equity(&self) -> (r: Decimal)
        ensures
            r@ == self@.max_equity,
    {
        self.max_equity.clone()
    }

    /// The deepest drawdown so far.
    pub fn max_drawdown(&self) -> (r: Decimal)
        ensures
            r@ == self@.max_drawdown,
    {
        self.max_drawdown.clone()
    }

    /// Books a buy.
    pub fn record_buy(&mut self, trade: &Trade)
        requires
            old(self).wf(),
            old(self)@.trades.len() < usize::MAX,
            trade@.is_entry(),
            trade@.trade_type.is_buy_spec(),
        ensures
            final(self).wf(),
            final(self)@ == old(self)@.buy(trade@),
    {
        let cost = trade.price.mul(&trade.amount).add(&trade.fee);
        let entry = trade.clone();
        proof {
            assert(trade_views(self.trades@.push(entry)) =~= old(self)@.trades.push(trade@));
            lemma_journal_push(old(self)@.trades, trade@);
            lemma_realized_push(old(self)@.trades, trade@);
        }
        self.buy_trades = self.buy_trades + 1;
        self.total_cost = self.total_cost.add(&cost);
        self.balance = self.balance.sub(&cost);
        self.position = self.position.add(&trade.amount);
        self.trades.push(entry);
    }

    /// The average cost of a unit of the position.
    pub fn average_cost(&self) -> (r: Decimal)
        requires
            self.wf(),
        ensures
            r@ == self@.average_cost(),
    {
        if self.position.is_zero() {
            Decimal::zero()
        } else {
            self.total_cost.div(&self.position)
        }
    }

    /// Books a sell at `average_cost` per unit of the position.
    pub fn record_sell(&mut self, trade: &Trade, average_cost: &Decimal)
        requires
            old(self).wf(),
            old(self)@.trades.len() < usize::MAX,
            trade@.is_entry(),
            !trade@.trade_type.is_buy_spec(),
            average_cost@.is_moderate(),
        ensures
            final(self).wf(),
            final(self)@ == old(self)@.sell(trade@, average_cost@),
    {
        let proceeds = trade.price.mul(&trade.amount);
        let revenue = proceeds.sub(&trade.fee);
        let used = average_cost.mul(&trade.amount);
        let profit = revenue.sub(&used);
        let position = self.position.sub(&trade.amount);
        let total_cost = if position.is_zero() {
            Decimal::zero()
        } else {
            self.total_cost.sub(&used)
        };
        if profit.is_positive() {
            self.winning_trades = self.winning_trades + 1;
            self.gross_profit = self.gross_profit.add(&profit);
            if profit.gt(&self.largest_win) {
                self.largest_win = profit.clone();
            }
        } else if profit.is_negative() {
            self.losing_trades = self.losing_trades + 1;
            self.gross_loss = self.gross_loss.add(&profit);
            if profit.lt(&self.largest_loss) {
                self.largest_loss = profit.clone();
            }
        }
        let entry = Trade {
            timestamp: trade.timestamp,
            trade_type: trade.trade_type,
            price: trade.price.clone(),
            amount: trade.amount.clone(),
            fee: trade.fee.clone(),
            profit: Some(profit),
        };
        proof {
            assert(trade_views(self.trades@.push(entry)) =~= old(self)@.trades.push(entry@));
            lemma_journal_push(old(self)@.trades, entry@);
            lemma_realized_push(old(self)@.trades, entry@);
        }
        self.sell_trades = self.sell_trades + 1;
        self.position = position;
        self.balance = self.balance.add(&revenue);
        self.total_cost = total_cost;
        self.trades.push(entry);
    }

    /// Books `trade`, and says whether it did: it does not, and leaves the
    /// account as it was, where the average cost of a sell has a scale too
    /// large to work on.
    pub fn record(&mut self, trade: &Trade) -> (r: bool)
        requires
            old(self).wf(),
            old(self)@.trades.len() < usize::MAX,
            trade@.is_entry(),
        ensures
            final(self).wf(),
            r == old(self)@.record(trade@).is_some(),
            r ==> Some(final(self)@) == old(self)@.record(trade@),
            !r ==> final(self)@ == old(self)@,
    {
        if trade.trade_type.is_buy() {
            self.record_buy(trade);
            true
        } else {
            let average_cost = self.average_cost();
            if average_cost.is_moderate() {
                self.record_sell(trade, &average_cost);
                true
            } else {
                false
            }
        }
    }

    /// Marks the account to `candle`.
    pub fn mark(&mut self, candle: &Candle)
        requires
            old(self).wf(),
            candle@.is_input(),
        ensures
            final(self).wf(),
            final(self)@ == old(self)@.mark(candle@),
            final(self)@.max_equity.value() >= old(self)@.max_equity.value(),
            final(self)@.max_drawdown.value() >= old(self)@.max_drawdown.value(),
    {
        let high_value = self.position.mul(&candle.high).add(&self.balance);
        if high_value.gt(&self.max_equity) {
            self.max_equity = high_value;
        }
        let low_value = self.position.mul(&candle.low).add(&self.balance);
        let drawdown = self.max_equity.sub(&low_value);
        if drawdown.gt(&self.max_drawdown) {
            if !self.max_equity.is_zero() {
                self.drawdown_ratio = Some(drawdown.div(&self.max_equity));
            }
            self.max_drawdown = drawdown;
        }
    }
}

/// Once a trade cannot be booked, no longer run of trades can.
pub proof fn lemma_record_all_stuck(
    tally: TallyView,
    trades: Seq<TradeView>,
    from: int,
    at: int,
    to: int,
)
    requires
        0 <= from <= at < to <= trades.len(),
        match tally.record_all(trades, from, at) {
            Some(reached) => reached.record(trades[at]).is_none(),
            None => true,
        },
    ensures
        tally.record_all(trades, from, to).is_none(),
    decreases to - at,
{
    if to > at + 1 {
        lemma_record_all_stuck(tally, trades, from, at, to - 1);
    }
}

/// Every trade from `from` on is due at the end of time.
pub proof fn lemma_due_at_last(trades: Seq<TradeView>, from: int)
    requires
        0 <= from <= trades.len(),
        forall|i: int| 0 <= i < trades.len() ==> (#[trigger] trades[i]).timestamp <= i64::MAX,
    ensures
        due(trades, from, i64::MAX as int) == trades.len(),
    decreases trades.len() - from,
{
    if from < trades.len() {
        lemma_due_at_last(trades, from + 1);
    }
}

/// The trades due are never fewer than those already booked, nor more than
/// there are.
pub proof fn lemma_due_bounds(trades: Seq<TradeView>, from: int, timestamp: int)
    requires
        0 <= from <= trades.len(),
    ensures
        from <= due(trades, from, timestamp) <= trades.len(),
    decreases trades.len() - from,
{
    if from < trades.len() && trades[from].timestamp <= timestamp {
        lemma_due_bounds(trades, from + 1, timestamp);
    }
}

/// Once the replay is stuck at a candle, it is stuck at every later one.
pub proof fn lemma_replay_stuck(
    initial_capital: DecimalView,
    candles: Seq<CandleView>,
    trades: Seq<TradeView>,
    at: nat,
    n: nat,
)
    requires
        at <= n,
        replay(initial_capital, candles, trades, at).is_none(),
    ensures
        replay(initial_capital, candles, trades, n).is_none(),
    decreases n - at,
{
    if n > at {
        lemma_replay_stuck(initial_capital, candles, trades, at, (n - 1) as nat);
    }
}

impl Tally {
    /// Books the trades from `from` on that are due at `timestamp`, in
    /// order, and returns the index of the first that is not; or stops at
    /// the first that cannot be booked, and returns nothing.
    pub fn book_due(&mut self, trades: &[Trade], from: usize, timestamp: i64) -> (r: Option<
        usize,
    >)
        requires
            old(self).wf(),
            from <= trades@.len(),
            old(self)@.trades.len() == from,
            forall|i: int| 0 <= i < trades@.len() ==> (#[trigger] trades@[i])@.is_entry(),
        ensures
            final(self).wf(),
            match r {
                Some(upto) => {
                    &&& upto == due(trade_views(trades@), from as int, timestamp as int)
                    &&& old(self)@.record_all(trade_views(trades@), from as int, upto as int)
                        == Some(final(self)@)
                    &&& final(self)@.trades.len() == upto
                    &&& final(self)@.max_equity == old(self)@.max_equity
                    &&& final(self)@.max_drawdown == old(self)@.max_drawdown
                },
                None => old(self)@.record_all(
                    trade_views(trades@),
                    from as int,
                    due(trade_views(trades@), from as int, timestamp as int),
                ).is_none(),
            },
    {
        let ghost views = trade_views(trades@);
        let mut i: usize = from;
        while i < trades.len() && trades[i].timestamp <= timestamp
            invariant
                self.wf(),
                from <= i <= trades@.len(),
                views == trade_views(trades@),
                self@.trades.len() == i,
                forall|k: int| 0 <= k < trades@.len() ==> (#[trigger] trades@[k])@.is_entry(),
                due(views, from as int, timestamp as int) == due(views, i as int, timestamp as int),
                old(self)@.record_all(views, from as int, i as int) == Some(self@),
                self@.max_equity == old(self)@.max_equity,
                self@.max_drawdown == old(self)@.max_drawdown,
            decreases trades@.len() - i,
        {
            if !self.record(&trades[i]) {
                proof {
                    lemma_due_bounds(views, i as int + 1, timestamp as int);
                    lemma_record_all_stuck(
                        old(self)@,
                        views,
                        from as int,
                        i as int,
                        due(views, from as int, timestamp as int),
                    );
                }
                return None;
            }
            i += 1;
        }
        Some(i)
    }
}

/// The profits of the sells that have one other than zero, in order.
pub open spec fn nonzero_profits(trades: Seq<TradeView>) -> Seq<DecimalView>
    decreases trades.len(),
{
    if trades.len() == 0 {
        Seq::empty()
    } else {
        let before = nonzero_profits(trades.drop_last());
        match trades.last().profit {
            Some(profit) => if profit.value() != 0real {
                before.push(profit)
            } else {
                before
            },
            None => before,
        }
    }
}

/// What the Sharpe ratio of the booked trades is taken from.
pub open spec fn sharpe_basis_of(trades: Seq<TradeView>) -> SharpeBasisView {
    let profits = nonzero_profits(trades);
    if profits.len() == 0 {
        SharpeBasisView::Zero
    } else if profits.len() == 1 {
        SharpeBasisView::Infinite
    } else {
        SharpeBasisView::Sample(profits)
    }
}

/// What the Sharpe ratio of the booked trades is taken from.
pub fn sharpe_basis(trades: &[Trade]) -> (r: SharpeBasis)
    ensures
        r@ == sharpe_basis_of(trade_views(trades@)),
{
    let ghost views = trade_views(trades@);
    let mut profits: Vec<Decimal> = Vec::new();
    let mut i: usize = 0;
    assert(views.take(0) =~= Seq::empty());
    assert(decimal_views(profits@) =~= Seq::empty());
    while i < trades.len()
        invariant
            i <= trades@.len(),
            views == trade_views(trades@),
            decimal_views(profits@) == nonzero_profits(views.take(i as int)),
        decreases trades@.len() - i,
    {
        proof {
            assert(views.take(i as int + 1).drop_last() =~= views.take(i as int));
            assert(views.take(i as int + 1).last() == trades@[i as int]@);
        }
        match &trades[i].profit {
            Some(profit) => {
                if !profit.is_zero() {
                    let kept = profit.clone();
                    proof {
                        assert(decimal_views(profits@.push(kept)) =~= decimal_views(profits@).push(
                            kept@,
                        ));
                    }
                    profits.push(kept);
                }
            },
            None => {},
        }
        i += 1;
    }
    assert(views.take(trades@.len() as int) =~= views);
    if profits.len() == 0 {
        SharpeBasis::Zero
    } else if profits.len() == 1 {
        SharpeBasis::Infinite
    } else {
        SharpeBasis::Sample(profits)
    }
}

/// The count `n` as a decimal.
pub open spec fn count(n: nat) -> DecimalView {
    DecimalView { unscaled: n as int, scale: 0 }
}

/// `total` over `n`, rounded half-up to two decimal places; zero for no `n`.
pub open spec fn average(total: DecimalView, n: nat) -> DecimalView {
    if n > 0 {
        decimal_rounded(decimal_quotient(total, count(n)), 2, RoundingMode::HalfUp)
    } else {
        zero()
    }
}

/// The summary of a replay that ended in `tally`.
pub open spec fn summary(initial_capital: DecimalView, tally: TallyView) -> StatisticView {
    let net_profit = decimal_rounded(
        decimal_sum(tally.gross_profit, tally.gross_loss),
        2,
        RoundingMode::HalfUp,
    );
    StatisticView {
        trades: tally.trades,
        initial_capital,
        total_cost: tally.total_cost,
        net_profit,
        return_ratio: if initial_capital.value() != 0real {
            Some(decimal_quotient(net_profit, initial_capital))
        } else {
            None
        },
        max_equity: tally.max_equity,
        max_drawdown: tally.max_drawdown,
        max_drawdown_ratio: tally.drawdown_ratio,
        gross_profit: tally.gross_profit,
        gross_loss: tally.gross_loss,
        profit_factor: if tally.gross_loss.value() == 0real {
            if tally.gross_profit.value() != 0real {
                RatioView::Infinite
            } else {
                RatioView::Zero
            }
        } else {
            RatioView::Finite(
                decimal_quotient(tally.gross_profit, decimal_difference(zero(), tally.gross_loss)),
            )
        },
        sharpe_basis: sharpe_basis_of(tally.trades),
        total_trades: tally.buy_trades + tally.sell_trades,
        buy_trades: tally.buy_trades,
        sell_trades: tally.sell_trades,
        winning_trades: tally.winning_trades,
        losing_trades: tally.losing_trades,
        avg_win: average(tally.gross_profit, tally.winning_trades),
        avg_loss: average(tally.gross_loss, tally.losing_trades),
        largest_win: tally.largest_win,
        largest_loss: tally.largest_loss,
    }
}

/// `total` over `n`, rounded half-up to two decimal places; zero for no `n`.
fn average_of(total: &Decimal, n: usize) -> (r: Decimal)
    requires
        total@.in_range(),
        n <= i64::MAX,
    ensures
        r@ == average(total@, n as nat),
{
    if n > 0 {
        let divisor = Decimal::from_i64(n as i64);
        total.div(&divisor).with_scale_round(2, RoundingMode::HalfUp)
    } else {
        Decimal::zero()
    }
}

impl Tally {
    /// The summary of the replay.
    pub fn finish(self, initial_capital: Decimal) -> (r: BacktestStatistic)
        requires
            self.wf(),
            initial_capital@.is_input(),
            self@.trades.len() <= i64::MAX,
        ensures
            r@ == summary(initial_capital@, self@),
    {
        let booked = self.trades.len();
        assert(self@.trades.len() == booked);
        let total_trades = self.buy_trades + self.sell_trades;
        let net_profit = self.gross_profit.add(&self.gross_loss).with_scale_round(
            2,
            RoundingMode::HalfUp,
        );
        let return_ratio = if !initial_capital.is_zero() {
            Some(net_profit.div(&initial_capital))
        } else {
            None
        };
        let profit_factor = if self.gross_loss.is_zero() {
            if !self.gross_profit.is_zero() {
                Ratio::Infinite
            } else {
                Ratio::Zero
            }
        } else {
            let loss = Decimal::zero().sub(&self.gross_loss);
            Ratio::Finite(self.gross_profit.div(&loss))
        };
        let avg_win = average_of(&self.gross_profit, self.winning_trades);
        let avg_loss = average_of(&self.gross_loss, self.losing_trades);
        let basis = sharpe_basis(self.trades.as_slice());
        BacktestStatistic {
            total_trades,
            trades: self.trades,
            initial_capital,
            total_cost: self.total_cost,
            net_profit,
            return_ratio,
            max_equity: self.max_equity,
            max_drawdown: self.max_drawdown,
            max_drawdown_ratio: self.drawdown_ratio,
            gross_profit: self.gross_profit,
            gross_loss: self.gross_loss,
            profit_factor,
            sharpe_basis: basis,
            buy_trades: self.buy_trades,
            sell_trades: self.sell_trades,
            winning_trades: self.winning_trades,
            losing_trades: self.losing_trades,
            avg_win,
            avg_loss,
            largest_win: self.largest_win,
            largest_loss: self.largest_loss,
        }
    }
}

/// The statistic of a run: the summary of the replay of `trades` against
/// `candles`, from `initial_capital`. There is none where the average cost
/// of some sell has a scale too large to work on.
pub fn calculate_backtest_statistic(
    initial_capital: Decimal,
    candles: &[Candle],
    trades: &[Trade],
) -> (r: Option<BacktestStatistic>)
    requires
        initial_capital@.is_input(),
        forall|i: int| 0 <= i < candles@.len() ==> (#[trigger] candles@[i])@.is_input(),
        forall|i: int| 0 <= i < trades@.len() ==> (#[trigger] trades@[i])@.is_entry(),
        trades@.len() <= i64::MAX,
    ensures
        match replay_all(initial_capital@, candle_views(candles@), trade_views(trades@)) {
            Some(tally) => r.is_some() && r.unwrap()@ == summary(initial_capital@, tally),
            None => r.is_none(),
        },
        r.is_some() ==> r.unwrap()@.max_drawdown.value() >= 0real,
        r.is_some() ==> r.unwrap()@.gross_profit.value() + r.unwrap()@.gross_loss.value()
            == realized_profit(r.unwrap()@.trades),
{
    let ghost bars = candle_views(candles@);
    let ghost views = trade_views(trades@);
    let mut tally = Tally::start(&initial_capital);
    let mut booked: usize = 0;
    let mut c: usize = 0;
    while c < candles.len()
        invariant
            tally.wf(),
            c <= candles@.len(),
            booked <= trades@.len(),
            bars == candle_views(candles@),
            views == trade_views(trades@),
            initial_capital@.is_input(),
            forall|i: int| 0 <= i < candles@.len() ==> (#[trigger] candles@[i])@.is_input(),
            forall|i: int| 0 <= i < trades@.len() ==> (#[trigger] trades@[i])@.is_entry(),
            tally@.trades.len() == booked,
            replay(initial_capital@, bars, views, c as nat) == Some((tally@, booked as int)),
        decreases candles@.len() - c,
    {
        match tally.book_due(trades, booked, candles[c].timestamp) {
            Some(upto) => {
                proof {
                    lemma_due_bounds(views, booked as int, candles@[c as int].timestamp as int);
                }
                booked = upto;
            },
            None => {
                proof {
                    assert(replay(initial_capital@, bars, views, (c + 1) as nat).is_none());
                    lemma_replay_stuck(
                        initial_capital@,
                        bars,
                        views,
                        (c + 1) as nat,
                        candles@.len() as nat,
                    );
                }
                return None;
            },
        }
        tally.mark(&candles[c]);
        c += 1;
    }
    proof {
        lemma_due_at_last(views, booked as int);
    }
    match tally.book_due(trades, booked, i64::MAX) {
        Some(_) => Some(tally.finish(initial_capital)),
        None => None,
    }
}

/// Marking to a candle never lowers the highest equity nor the deepest
/// drawdown, and a drawdown that was not negative stays so.
pub proof fn lemma_mark_monotone(tally: TallyView, candle: CandleView)
    ensures
        tally.mark(candle).max_equity.value() >= tally.max_equity.value(),
        tally.mark(candle).max_drawdown.value() >= tally.max_drawdown.value(),
{
}

/// Booking trades changes neither the highest equity nor the deepest
/// drawdown.
pub proof fn lemma_record_all_keeps_marks(
    tally: TallyView,
    trades: Seq<TradeView>,
    from: int,
    to: int,
)
    requires
        tally.record_all(trades, from, to).is_some(),
    ensures
        tally.record_all(trades, from, to).unwrap().max_equity == tally.max_equity,
        tally.record_all(trades, from, to).unwrap().max_drawdown == tally.max_drawdown,
    decreases to - from,
{
    if from < to {
        lemma_record_all_keeps_marks(tally, trades, from, to - 1);
    }
}

/// At every point of the replay the deepest drawdown is not negative.
pub proof fn lemma_replay_drawdown(
    initial_capital: DecimalView,
    candles: Seq<CandleView>,
    trades: Seq<TradeView>,
    n: nat,
)
    requires
        n <= candles.len(),
        replay(initial_capital, candles, trades, n).is_some(),
    ensures
        replay(initial_capital, candles, trades, n).unwrap().0.max_drawdown.value() >= 0real,
    decreases n,
{
    if n > 0 {
        lemma_replay_drawdown(initial_capital, candles, trades, (n - 1) as nat);
        lemma_replay_monotone(initial_capital, candles, trades, (n - 1) as nat, n);
    } else {
        lemma_value_sign(zero());
    }
}

/// Along the replay the highest equity never falls and the deepest
/// drawdown never shrinks: what they are after `n` candles is not below
/// what they were after `m`, for any `m` before `n`.
pub proof fn lemma_replay_monotone(
    initial_capital: DecimalView,
    candles: Seq<CandleView>,
    trades: Seq<TradeView>,
    m: nat,
    n: nat,
)
    requires
        m <= n <= candles.len(),
        replay(initial_capital, candles, trades, n).is_some(),
    ensures
        replay(initial_capital, candles, trades, m).is_some(),
        replay(initial_capital, candles, trades, n).unwrap().0.max_equity.value() >= replay(
            initial_capital,
            candles,
            trades,
            m,
        ).unwrap().0.max_equity.value(),
        replay(initial_capital, candles, trades, n).unwrap().0.max_drawdown.value() >= replay(
            initial_capital,
            candles,
            trades,
            m,
        ).unwrap().0.max_drawdown.value(),
    decreases n - m,
{
    if m < n {
        lemma_replay_monotone(initial_capital, candles, trades, m, (n - 1) as nat);
        let (tally, booked) = replay(initial_capital, candles, trades, (n - 1) as nat).unwrap();
        let upto = due(trades, booked, candles[n - 1].timestamp);
        lemma_record_all_keeps_marks(tally, trades, booked, upto);
        lemma_mark_monotone(tally.record_all(trades, booked, upto).unwrap(), candles[n - 1]);
    }
}

/// The booked trades are those of the journal, in order, each as it was
/// but for its profit.
pub open spec fn same_flows(booked: Seq<TradeView>, journal: Seq<TradeView>) -> bool {
    &&& booked.len() == journal.len()
    &&& forall|i: int|
        0 <= i < booked.len() ==> #[trigger] booked[i] == (TradeView {
            profit: booked[i].profit,
            ..journal[i]
        })
}

/// Trades that differ in their profit alone move the same cash and the same
/// position.
pub proof fn lemma_same_flows(booked: Seq<TradeView>, journal: Seq<TradeView>)
    requires
        same_flows(booked, journal),
    ensures
        journal_cash(booked) == journal_cash(journal),
        journal_position(booked) == journal_position(journal),
    decreases booked.len(),
{
    if booked.len() > 0 {
        assert(booked.last() == booked[booked.len() - 1]);
        lemma_same_flows(booked.drop_last(), journal.drop_last());
    }
}

/// Booking trades of the journal, from where the booked ones end, keeps the
/// booked trades those of the journal, and keeps the initial capital.
pub proof fn lemma_record_all_flows(
    tally: TallyView,
    trades: Seq<TradeView>,
    from: int,
    to: int,
)
    requires
        0 <= from <= to <= trades.len(),
        tally.record_all(trades, from, to).is_some(),
        same_flows(tally.trades, trades.take(from)),
    ensures
        same_flows(tally.record_all(trades, from, to).unwrap().trades, trades.take(to)),
        tally.record_all(trades, from, to).unwrap().initial_capital == tally.initial_capital,
    decreases to - from,
{
    if from < to {
        lemma_record_all_flows(tally, trades, from, to - 1);
        let reached = tally.record_all(trades, from, to - 1).unwrap();
        let next = reached.record(trades[to - 1]).unwrap();
        assert(trades.take(to).drop_last() =~= trades.take(to - 1));
        assert forall|i: int| 0 <= i < next.trades.len() implies #[trigger] next.trades[i] == (
        TradeView { profit: next.trades[i].profit, ..trades.take(to)[i] }) by {
            if i < to - 1 {
                assert(next.trades[i] == reached.trades[i]);
                assert(trades.take(to - 1)[i] == trades.take(to)[i]);
            }
        }
    }
}

/// At every point of the replay the booked trades are the first trades of
/// the journal.
pub proof fn lemma_replay_flows(
    initial_capital: DecimalView,
    candles: Seq<CandleView>,
    trades: Seq<TradeView>,
    n: nat,
)
    requires
        n <= candles.len(),
        replay(initial_capital, candles, trades, n).is_some(),
    ensures
        0 <= replay(initial_capital, candles, trades, n).unwrap().1 <= trades.len(),
        same_flows(
            replay(initial_capital, candles, trades, n).unwrap().0.trades,
            trades.take(replay(initial_capital, candles, trades, n).unwrap().1),
        ),
        replay(initial_capital, candles, trades, n).unwrap().0.initial_capital == initial_capital,
    decreases n,
{
    if n > 0 {
        lemma_replay_flows(initial_capital, candles, trades, (n - 1) as nat);
        let (tally, booked) = replay(initial_capital, candles, trades, (n - 1) as nat).unwrap();
        let upto = due(trades, booked, candles[n - 1].timestamp);
        lemma_due_bounds(trades, booked, candles[n - 1].timestamp);
        lemma_record_all_flows(tally, trades, booked, upto);
    } else {
        assert(trades.take(0) =~= Seq::empty());
    }
}

/// The books close: the replay of a finished run's journal, from the
/// balance that the run was opened with, ends on the balance and the
/// position that the run ended on.
pub proof fn lemma_replay_closes(
    context: ContextView,
    initial_capital: DecimalView,
    candles: Seq<CandleView>,
    tally: TallyView,
)
    requires
        context.wf(),
        context.orders.len() == 0,
        initial_capital.value() == context.opening,
        replay_all(initial_capital, candles, context.trades) == Some(tally),
        tally.wf(),
    ensures
        tally.balance.value() == context.balance.value(),
        tally.position.value() == context.position.value(),
{
    let trades = context.trades;
    lemma_replay_flows(initial_capital, candles, trades, candles.len());
    let (reached, booked) = replay(initial_capital, candles, trades, candles.len()).unwrap();
    lemma_record_all_flows(reached, trades, booked, trades.len() as int);
    assert(trades.take(trades.len() as int) =~= trades);
    lemma_same_flows(tally.trades, trades);
}

} // verus!
