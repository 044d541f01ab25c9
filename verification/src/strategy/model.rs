//! The mathematical model of the simulation context: its state, what makes
//! a state well formed, and the state that each operation leads to.

use crate::decimal::{
    decimal_difference, decimal_product, decimal_sum, DecimalView, RoundingMode,
};
use crate::errors::ErrorKind;
use crate::models::candle::{strictly_increasing, CandleView};
use crate::models::exchange::{rounded_to_step, FeesView, PrecisionView};
use crate::strategy::context::{OrderType, OrderView, TradeType, TradeView};
use vstd::prelude::*;

verus! {

/// The state of a simulation context.
pub ghost struct ContextView {
    pub candles: Seq<CandleView>,
    pub balance: DecimalView,
    pub position: DecimalView,
    pub trades: Seq<TradeView>,
    pub orders: Seq<OrderView>,
    pub fees: FeesView,
    pub precision: PrecisionView,
    /// Every order identifier that the context has given out so far.
    pub issued: Seq<u128>,
    /// The balance that the context was opened with.
    pub opening: real,
}

/// The timestamps do not decrease along the journal.
pub open spec fn journal_ordered(trades: Seq<TradeView>) -> bool {
    forall|i: int, j: int| 0 <= i <= j < trades.len() ==> trades[i].timestamp <= trades[j].timestamp
}

/// No value occurs twice in the sequence.
pub open spec fn distinct(ids: Seq<u128>) -> bool {
    forall|i: int, j: int| 0 <= i < j < ids.len() ==> ids[i] != ids[j]
}

/// The identifiers of the orders, in their order.
pub open spec fn order_ids(orders: Seq<OrderView>) -> Seq<u128> {
    orders.map_values(|o: OrderView| o.id)
}

impl TradeView {
    /// What the trade adds to the cash: minus cost and fee for a buy, the
    /// proceeds less the fee for a sell.
    pub open spec fn cash_flow(self) -> real {
        if self.trade_type.is_buy_spec() {
            -(self.price.value() * self.amount.value() + self.fee.value())
        } else {
            self.price.value() * self.amount.value() - self.fee.value()
        }
    }

    /// What the trade adds to the position.
    pub open spec fn position_flow(self) -> real {
        if self.trade_type.is_buy_spec() {
            self.amount.value()
        } else {
            -self.amount.value()
        }
    }
}

/// The cash that the journal's trades add up to.
pub open spec fn journal_cash(trades: Seq<TradeView>) -> real
    decreases trades.len(),
{
    if trades.len() == 0 {
        0real
    } else {
        journal_cash(trades.drop_last()) + trades.last().cash_flow()
    }
}

/// The position that the journal's trades add up to.
pub open spec fn journal_position(trades: Seq<TradeView>) -> real
    decreases trades.len(),
{
    if trades.len() == 0 {
        0real
    } else {
        journal_position(trades.drop_last()) + trades.last().position_flow()
    }
}

/// The cash that the orders hold back.
pub open spec fn reserved_cash(orders: Seq<OrderView>) -> real
    decreases orders.len(),
{
    if orders.len() == 0 {
        0real
    } else {
        reserved_cash(orders.drop_last()) + orders.last().reserved_cash()
    }
}

/// The base asset that the orders hold back.
pub open spec fn reserved_position(orders: Seq<OrderView>) -> real
    decreases orders.len(),
{
    if orders.len() == 0 {
        0real
    } else {
        reserved_position(orders.drop_last()) + orders.last().reserved_position()
    }
}

/// One more order holds back its own share more.
pub proof fn lemma_reserved_push(orders: Seq<OrderView>, order: OrderView)
    ensures
        reserved_cash(orders.push(order)) == reserved_cash(orders) + order.reserved_cash(),
        reserved_position(orders.push(order)) == reserved_position(orders)
            + order.reserved_position(),
{
    assert(orders.push(order).drop_last() =~= orders);
}

/// One order less holds back its own share less.
pub proof fn lemma_reserved_remove(orders: Seq<OrderView>, index: int)
    requires
        0 <= index < orders.len(),
    ensures
        reserved_cash(orders.remove(index)) == reserved_cash(orders)
            - orders[index].reserved_cash(),
        reserved_position(orders.remove(index)) == reserved_position(orders)
            - orders[index].reserved_position(),
    decreases orders.len(),
{
    if index == orders.len() - 1 {
        assert(orders.remove(index) =~= orders.drop_last());
    } else {
        lemma_reserved_remove(orders.drop_last(), index);
        assert(orders.remove(index).drop_last() =~= orders.drop_last().remove(index));
        assert(orders.remove(index).last() == orders.last());
    }
}

/// One more trade adds its own flows to the journal's.
pub proof fn lemma_journal_push(trades: Seq<TradeView>, trade: TradeView)
    ensures
        journal_cash(trades.push(trade)) == journal_cash(trades) + trade.cash_flow(),
        journal_position(trades.push(trade)) == journal_position(trades) + trade.position_flow(),
{
    assert(trades.push(trade).drop_last() =~= trades);
}

impl ContextView {
    /// The candle fed last.
    pub open spec fn last_candle(self) -> CandleView
        recommends
            self.candles.len() > 0,
    {
        self.candles[self.candles.len() - 1]
    }

    /// What holds of a context after every operation: a position that is
    /// not negative, candles whose timestamps strictly increase, a journal
    /// whose timestamps do not decrease and do not pass the last candle,
    /// resting orders with distinct identifiers that the context gave out,
    /// no identifier given out twice, bounded scales, and books that add up.
    pub open spec fn wf(self) -> bool {
        &&& self.fees.wf()
        &&& self.precision.wf()
        &&& self.position.value() >= 0real
        &&& self.balance.within(4)
        &&& self.position.within(4)
        &&& strictly_increasing(self.candles)
        &&& forall|i: int| 0 <= i < self.candles.len() ==> (#[trigger] self.candles[i]).is_input()
        &&& journal_ordered(self.trades)
        &&& forall|i: int|
            0 <= i < self.trades.len() ==> {
                &&& (#[trigger] self.trades[i]).is_bounded()
                &&& self.trades[i].profit.is_none()
                &&& self.candles.len() > 0
                &&& self.trades[i].timestamp <= self.last_candle().timestamp
            }
        &&& forall|i: int| 0 <= i < self.orders.len() ==> (#[trigger] self.orders[i]).wf()
        &&& distinct(order_ids(self.orders))
        &&& forall|i: int|
            0 <= i < self.orders.len() ==> self.issued.contains((#[trigger] self.orders[i]).id)
        &&& distinct(self.issued)
        &&& self.conserves()
    }

    /// Whether the context can pay its way: the balance is not negative,
    /// and no resting order holds back negative cash. A context that starts
    /// so stays so as long as no limit price is negative.
    pub open spec fn solvent(self) -> bool {
        &&& self.balance.value() >= 0real
        &&& forall|i: int| 0 <= i < self.orders.len() ==> (#[trigger] self.orders[i]).is_covered()
    }

    /// Nothing is lost: the balance and the cash held back by resting
    /// orders are the opening balance plus what the journal's trades moved,
    /// and the position and the base asset held back are what they moved.
    pub open spec fn conserves(self) -> bool {
        &&& self.balance.value() + reserved_cash(self.orders) == self.opening + journal_cash(
            self.trades,
        )
        &&& self.position.value() + reserved_position(self.orders) == journal_position(
            self.trades,
        )
    }

    /// Whether `next` goes on from this state: the same candles, market
    /// and opening balance, with the journal and the identifiers given out
    /// so far as they were, and possibly more of both.
    pub open spec fn extended_by(self, next: ContextView) -> bool {
        &&& next.candles == self.candles
        &&& next.fees == self.fees
        &&& next.precision == self.precision
        &&& next.opening == self.opening
        &&& self.trades.is_prefix_of(next.trades)
        &&& self.issued.is_prefix_of(next.issued)
    }

    /// The state with `trade` appended to the journal.
    pub open spec fn journal(self, trade: TradeView) -> ContextView {
        ContextView { trades: self.trades.push(trade), ..self }
    }

    /// The entry that a trade at the last candle writes.
    pub open spec fn entry(
        self,
        trade_type: TradeType,
        price: DecimalView,
        amount: DecimalView,
        fee: DecimalView,
    ) -> TradeView {
        TradeView {
            timestamp: self.last_candle().timestamp,
            trade_type,
            price,
            amount,
            fee,
            profit: None,
        }
    }

    /// The fee on a trade of `value`, at `rate`: rounded up to a multiple of
    /// the amount step.
    pub open spec fn fee_on(self, value: DecimalView, rate: DecimalView) -> DecimalView {
        rounded_to_step(decimal_product(value, rate), self.precision.amount_step, RoundingMode::Up)
    }

    /// `amount` rounded down to a multiple of the amount step. A limit price
    /// is rounded in the same way, by the amount step.
    pub open spec fn quantized(self, amount: DecimalView) -> DecimalView {
        rounded_to_step(amount, self.precision.amount_step, RoundingMode::Down)
    }
}

/// What an operation leads to: the next state, or the kind of its failure.
pub type Outcome = Result<ContextView, ErrorKind>;

/// What placing an order leads to: the next state and the identifier of the
/// order that now rests, if one does; or the kind of the failure.
pub type Placement = Result<(ContextView, Option<u128>), ErrorKind>;

impl ContextView {
    /// A market buy of `amount` at the close of the last candle.
    pub open spec fn market_buy(self, amount: DecimalView) -> Outcome {
        let amount = self.quantized(amount);
        if amount.value() <= 0real {
            Err(ErrorKind::InvalidAmount)
        } else if self.candles.len() == 0 {
            Err(ErrorKind::NoCandle)
        } else {
            let price = self.last_candle().close;
            let cost = decimal_product(price, amount);
            let fee = self.fee_on(cost, self.fees.taker);
            let total = decimal_sum(cost, fee);
            if total.value() > self.balance.value() {
                Err(ErrorKind::InsufficientFunds)
            } else {
                Ok(
                    ContextView {
                        balance: decimal_difference(self.balance, total),
                        position: decimal_sum(self.position, amount),
                        ..self
                    }.journal(self.entry(TradeType::MarketBuy, price, amount, fee)),
                )
            }
        }
    }

    /// A market sell of `amount` at the close of the last candle.
    pub open spec fn market_sell(self, amount: DecimalView) -> Outcome {
        let amount = self.quantized(amount);
        if amount.value() <= 0real {
            Err(ErrorKind::InvalidAmount)
        } else if amount.value() > self.position.value() {
            Err(ErrorKind::InsufficientPosition)
        } else if self.candles.len() == 0 {
            Err(ErrorKind::NoCandle)
        } else {
            let price = self.last_candle().close;
            let proceeds = decimal_product(price, amount);
            let fee = self.fee_on(proceeds, self.fees.taker);
            let revenue = decimal_difference(proceeds, fee);
            if revenue.value() < 0real {
                Err(ErrorKind::NegativeRevenue)
            } else {
                Ok(
                    ContextView {
                        balance: decimal_sum(self.balance, revenue),
                        position: decimal_difference(self.position, amount),
                        ..self
                    }.journal(self.entry(TradeType::MarketSell, price, amount, fee)),
                )
            }
        }
    }

    /// The state with `order` resting, its identifier given out, and what it
    /// holds back taken from the balance and the position.
    pub open spec fn rest(self, order: OrderView, balance: DecimalView, position: DecimalView)
        -> ContextView {
        ContextView {
            balance,
            position,
            orders: self.orders.push(order),
            issued: self.issued.push(order.id),
            ..self
        }
    }

    /// A limit buy of `amount` at `price`, the order to be known as `id`. A
    /// price at or above the close makes it a market buy.
    pub open spec fn limit_buy(self, price: DecimalView, amount: DecimalView, id: u128)
        -> Placement {
        let price = self.quantized(price);
        let amount = self.quantized(amount);
        if amount.value() <= 0real {
            Err(ErrorKind::InvalidAmount)
        } else if self.candles.len() == 0 {
            Err(ErrorKind::NoCandle)
        } else if price.value() >= self.last_candle().close.value() {
            match self.market_buy(amount) {
                Ok(next) => Ok((next, None)),
                Err(kind) => Err(kind),
            }
        } else {
            let cost = decimal_product(amount, price);
            let fee = self.fee_on(cost, self.fees.maker);
            let total = decimal_sum(cost, fee);
            if total.value() > self.balance.value() {
                Err(ErrorKind::InsufficientFunds)
            } else if self.issued.contains(id) {
                Err(ErrorKind::Internal)
            } else {
                let order = OrderView { id, order_type: OrderType::LimitBuy, price, amount, fee };
                Ok(
                    (
                        self.rest(order, decimal_difference(self.balance, total), self.position),
                        Some(id),
                    ),
                )
            }
        }
    }

    /// A limit sell of `amount` at `price`, the order to be known as `id`. A
    /// price at or below the close makes it a market sell.
    pub open spec fn limit_sell(self, price: DecimalView, amount: DecimalView, id: u128)
        -> Placement {
        let price = self.quantized(price);
        let amount = self.quantized(amount);
        if amount.value() <= 0real {
            Err(ErrorKind::InvalidAmount)
        } else if amount.value() > self.position.value() {
            Err(ErrorKind::InsufficientPosition)
        } else if self.candles.len() == 0 {
            Err(ErrorKind::NoCandle)
        } else if price.value() <= self.last_candle().close.value() {
            match self.market_sell(amount) {
                Ok(next) => Ok((next, None)),
                Err(kind) => Err(kind),
            }
        } else {
            let proceeds = decimal_product(price, amount);
            let fee = self.fee_on(proceeds, self.fees.maker);
            if fee.value() > self.balance.value() {
                Err(ErrorKind::InsufficientFunds)
            } else if self.issued.contains(id) {
                Err(ErrorKind::Internal)
            } else {
                let order = OrderView { id, order_type: OrderType::LimitSell, price, amount, fee };
                Ok(
                    (
                        self.rest(
                            order,
                            decimal_difference(self.balance, fee),
                            decimal_difference(self.position, amount),
                        ),
                        Some(id),
                    ),
                )
            }
        }
    }

    /// The state with the order at `index` cancelled: what it held back is
    /// returned, and the order is gone.
    pub open spec fn cancel_at(self, index: int) -> ContextView
        recommends
            0 <= index < self.orders.len(),
    {
        let order = self.orders[index];
        match order.order_type {
            OrderType::LimitBuy => ContextView {
                balance: decimal_sum(
                    self.balance,
                    decimal_sum(decimal_product(order.price, order.amount), order.fee),
                ),
                orders: self.orders.remove(index),
                ..self
            },
            OrderType::LimitSell => ContextView {
                balance: decimal_sum(self.balance, order.fee),
                position: decimal_sum(self.position, order.amount),
                orders: self.orders.remove(index),
                ..self
            },
        }
    }

    /// The state with the order known as `id` cancelled, if one rests.
    pub open spec fn cancel_order(self, id: u128) -> ContextView {
        let ids = order_ids(self.orders);
        if ids.contains(id) {
            self.cancel_at(ids.index_of(id))
        } else {
            self
        }
    }

    /// Whether the candle's range reaches the order's price.
    pub open spec fn fills(order: OrderView, candle: CandleView) -> bool {
        match order.order_type {
            OrderType::LimitBuy => order.price.value() >= candle.low.value(),
            OrderType::LimitSell => order.price.value() <= candle.high.value(),
        }
    }

    /// The state with the order at `index` filled at its own price: a buy
    /// adds its amount to the position, a sell adds its proceeds to the
    /// balance; the fill is journalled at the last candle, and the order is
    /// gone. What the order held back was taken when it was placed.
    pub open spec fn fill_at(self, index: int) -> ContextView
        recommends
            0 <= index < self.orders.len(),
            self.candles.len() > 0,
    {
        let order = self.orders[index];
        match order.order_type {
            OrderType::LimitBuy => ContextView {
                position: decimal_sum(self.position, order.amount),
                orders: self.orders.remove(index),
                ..self
            }.journal(self.entry(TradeType::LimitBuy, order.price, order.amount, order.fee)),
            OrderType::LimitSell => ContextView {
                balance: decimal_sum(self.balance, decimal_product(order.price, order.amount)),
                orders: self.orders.remove(index),
                ..self
            }.journal(self.entry(TradeType::LimitSell, order.price, order.amount, order.fee)),
        }
    }

    /// The state once every resting order from `index` on has met the last
    /// candle, in the order of placement: filled where the candle's range
    /// reaches its price, else resting on.
    pub open spec fn sweep(self, index: int) -> ContextView
        recommends
            0 <= index,
        decreases self.orders.len() - index,
    {
        if index < 0 || index >= self.orders.len() {
            self
        } else if Self::fills(self.orders[index], self.last_candle()) {
            self.fill_at(index).sweep(index)
        } else {
            self.sweep(index + 1)
        }
    }

    /// The state after the matching that precedes the strategy's turn.
    pub open spec fn before(self) -> ContextView {
        self.sweep(0)
    }

    /// The state after the end of the run: every resting order is
    /// cancelled, in the order of placement.
    pub open spec fn end(self) -> ContextView
        decreases self.orders.len(),
    {
        if self.orders.len() == 0 {
            self
        } else {
            self.cancel_at(0).end()
        }
    }

    /// The state with `candle` fed.
    pub open spec fn feed(self, candle: CandleView) -> ContextView {
        ContextView { candles: self.candles.push(candle), ..self }
    }
}

/// Placing a limit buy and cancelling it again gives back exactly what was
/// taken: the balance and the position stand for the same numbers as
/// before, and the same orders rest.
pub proof fn lemma_limit_buy_then_cancel(
    before: ContextView,
    price: DecimalView,
    amount: DecimalView,
    id: u128,
    placed: ContextView,
)
    requires
        before.wf(),
        before.limit_buy(price, amount, id) == Ok::<(ContextView, Option<u128>), ErrorKind>(
            (placed, Some(id)),
        ),
        placed.wf(),
        placed.cancel_order(id).wf(),
    ensures
        placed.cancel_order(id).balance.value() == before.balance.value(),
        placed.cancel_order(id).position.value() == before.position.value(),
        placed.cancel_order(id).orders == before.orders,
        placed.cancel_order(id).trades == before.trades,
{
    assert(placed.orders.drop_last() =~= before.orders);
    lemma_place_then_cancel(before, placed, id);
}

/// Placing a limit sell and cancelling it again gives back exactly what was
/// taken: the balance and the position stand for the same numbers as
/// before, and the same orders rest.
pub proof fn lemma_limit_sell_then_cancel(
    before: ContextView,
    price: DecimalView,
    amount: DecimalView,
    id: u128,
    placed: ContextView,
)
    requires
        before.wf(),
        before.limit_sell(price, amount, id) == Ok::<(ContextView, Option<u128>), ErrorKind>(
            (placed, Some(id)),
        ),
        placed.wf(),
        placed.cancel_order(id).wf(),
    ensures
        placed.cancel_order(id).balance.value() == before.balance.value(),
        placed.cancel_order(id).position.value() == before.position.value(),
        placed.cancel_order(id).orders == before.orders,
        placed.cancel_order(id).trades == before.trades,
{
    assert(placed.orders.drop_last() =~= before.orders);
    lemma_place_then_cancel(before, placed, id);
}

/// Cancelling the one order that was added last, under an identifier that
/// no resting order had, leads back to the balance and position from before
/// it was added.
proof fn lemma_place_then_cancel(before: ContextView, placed: ContextView, id: u128)
    requires
        before.wf(),
        placed.wf(),
        placed.cancel_order(id).wf(),
        placed.orders.len() == before.orders.len() + 1,
        placed.orders.drop_last() == before.orders,
        placed.orders.last().id == id,
        placed.trades == before.trades,
        placed.opening == before.opening,
    ensures
        placed.cancel_order(id).balance.value() == before.balance.value(),
        placed.cancel_order(id).position.value() == before.position.value(),
        placed.cancel_order(id).orders == before.orders,
        placed.cancel_order(id).trades == before.trades,
{
    let ids = order_ids(placed.orders);
    let last = placed.orders.len() - 1;
    assert(ids[last] == id);
    let at = ids.index_of(id);
    assert(ids[at] == id);
    if at < last {
        assert(ids[at] != ids[last]);
    }
    assert(placed.orders.remove(last) =~= before.orders);
}

/// A limit buy whose price, once rounded, is at or above the close of the
/// last candle is the market buy of the rounded amount, and no order rests.
pub proof fn lemma_limit_buy_crossing(
    context: ContextView,
    price: DecimalView,
    amount: DecimalView,
    id: u128,
)
    requires
        context.candles.len() > 0,
        context.quantized(amount).value() > 0real,
        context.quantized(price).value() >= context.last_candle().close.value(),
    ensures
        match context.limit_buy(price, amount, id) {
            Ok((next, resting)) => resting.is_none() && context.market_buy(
                context.quantized(amount),
            ) == Ok::<ContextView, ErrorKind>(next),
            Err(kind) => context.market_buy(context.quantized(amount)) == Err::<
                ContextView,
                ErrorKind,
            >(kind),
        },
{
}

/// A limit sell whose price, once rounded, is at or below the close of the
/// last candle is the market sell of the rounded amount, and no order
/// rests.
pub proof fn lemma_limit_sell_crossing(
    context: ContextView,
    price: DecimalView,
    amount: DecimalView,
    id: u128,
)
    requires
        context.candles.len() > 0,
        context.quantized(amount).value() > 0real,
        context.quantized(amount).value() <= context.position.value(),
        context.quantized(price).value() <= context.last_candle().close.value(),
    ensures
        match context.limit_sell(price, amount, id) {
            Ok((next, resting)) => resting.is_none() && context.market_sell(
                context.quantized(amount),
            ) == Ok::<ContextView, ErrorKind>(next),
            Err(kind) => context.market_sell(context.quantized(amount)) == Err::<
                ContextView,
                ErrorKind,
            >(kind),
        },
{
}

} // verus!
