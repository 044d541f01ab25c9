//! The simulation context: the account of one backtest run.
//!
//! The context holds the candles fed so far, the cash balance, the position
//! in the base asset, the resting limit orders and the journal of executed
//! trades. Every operation either fails and leaves the context as it was,
//! or moves it to the state that its contract names.

use crate::decimal::{Decimal, DecimalView, RoundingMode};
use crate::errors::{AppError, AppResult};
use crate::models::candle::{candle_views, Candle};
use crate::models::exchange::{MarketPrecision, TradingFees};
use crate::errors::ErrorKind;
use crate::strategy::model::{
    distinct, lemma_journal_push, lemma_reserved_push, lemma_reserved_remove, order_ids,
    reserved_cash, reserved_position, ContextView,
};
use uuid::Uuid;
use vstd::prelude::*;

verus! {

/// The kind of an executed trade.
#[derive(Clone, Copy, Debug, PartialEq, Eq, Structural)]
pub enum TradeType {
    MarketBuy,
    MarketSell,
    LimitBuy,
    LimitSell,
}

impl TradeType {
    /// Whether the trade adds to the position.
    pub open spec fn is_buy_spec(self) -> bool {
        self == TradeType::MarketBuy || self == TradeType::LimitBuy
    }

    /// Whether the trade adds to the position.
    pub fn is_buy(&self) -> (r: bool)
        ensures
            r == self.is_buy_spec(),
    {
        match self {
            TradeType::MarketBuy => true,
            TradeType::LimitBuy => true,
            TradeType::MarketSell => false,
            TradeType::LimitSell => false,
        }
    }
}

/// An entry of the trade journal. The profit is filled in by the statistic
/// pass, and only on sells.
#[derive(Debug)]
pub struct Trade {
    pub timestamp: i64,
    pub trade_type: TradeType,
    pub price: Decimal,
    pub amount: Decimal,
    pub fee: Decimal,
    pub profit: Option<Decimal>,
}

/// The mathematical content of a [`Trade`].
pub ghost struct TradeView {
    pub timestamp: int,
    pub trade_type: TradeType,
    pub price: DecimalView,
    pub amount: DecimalView,
    pub fee: DecimalView,
    pub profit: Option<DecimalView>,
}

impl TradeView {
    /// The scales of a journal entry as the context writes it.
    pub open spec fn is_bounded(self) -> bool {
        &&& self.price.within(1)
        &&& self.amount.within(1)
        &&& self.fee.within(3)
    }

    /// A journal entry as the context writes it: bounded scales, and no
    /// profit yet.
    pub open spec fn is_entry(self) -> bool {
        self.is_bounded() && self.profit.is_none()
    }
}

impl View for Trade {
    type V = TradeView;

    open spec fn view(&self) -> TradeView {
        TradeView {
            timestamp: self.timestamp as int,
            trade_type: self.trade_type,
            price: self.price@,
            amount: self.amount@,
            fee: self.fee@,
            profit: match self.profit {
                Some(p) => Some(p@),
                None => None,
            },
        }
    }
}

impl Clone for Trade {
    fn clone(&self) -> (r: Self)
        ensures
            r@ == self@,
    {
        Trade {
            timestamp: self.timestamp,
            trade_type: self.trade_type,
            price: self.price.clone(),
            amount: self.amount.clone(),
            fee: self.fee.clone(),
            profit: match &self.profit {
                Some(p) => Some(p.clone()),
                None => None,
            },
        }
    }
}

/// The kind of a resting order.
#[derive(Clone, Copy, Debug, PartialEq, Eq, Structural)]
pub enum OrderType {
    LimitBuy,
    LimitSell,
}

/// A resting limit order. The identifier is a UUID as a 128-bit integer.
#[derive(Debug)]
pub struct Order {
    pub id: u128,
    pub order_type: OrderType,
    pub price: Decimal,
    pub amount: Decimal,
    pub fee: Decimal,
}

/// The mathematical content of an [`Order`].
pub ghost struct OrderView {
    pub id: u128,
    pub order_type: OrderType,
    pub price: DecimalView,
    pub amount: DecimalView,
    pub fee: DecimalView,
}

impl OrderView {
    /// What holds of every resting order: a positive amount and bounded
    /// scales.
    pub open spec fn wf(self) -> bool {
        &&& self.amount.value() > 0real
        &&& self.price.within(1)
        &&& self.amount.within(1)
        &&& self.fee.within(3)
    }

    /// Whether the order holds back no negative cash: its price and its fee
    /// are not negative.
    pub open spec fn is_covered(self) -> bool {
        self.price.value() >= 0real && self.fee.value() >= 0real
    }

    /// The cash that the order holds back: price times amount plus fee for a
    /// buy, the fee for a sell.
    pub open spec fn reserved_cash(self) -> real {
        match self.order_type {
            OrderType::LimitBuy => self.price.value() * self.amount.value() + self.fee.value(),
            OrderType::LimitSell => self.fee.value(),
        }
    }

    /// The base asset that the order holds back: the amount for a sell.
    pub open spec fn reserved_position(self) -> real {
        match self.order_type {
            OrderType::LimitBuy => 0real,
            OrderType::LimitSell => self.amount.value(),
        }
    }
}

impl View for Order {
    type V = OrderView;

    open spec fn view(&self) -> OrderView {
        OrderView {
            id: self.id,
            order_type: self.order_type,
            price: self.price@,
            amount: self.amount@,
            fee: self.fee@,
        }
    }
}

impl Clone for Order {
    fn clone(&self) -> (r: Self)
        ensures
            r@ == self@,
    {
        Order {
            id: self.id,
            order_type: self.order_type,
            price: self.price.clone(),
            amount: self.amount.clone(),
            fee: self.fee.clone(),
        }
    }
}

/// The trades of a sequence, each by its view.
pub open spec fn trade_views(trades: Seq<Trade>) -> Seq<TradeView> {
    trades.map_values(|t: Trade| t@)
}

/// The orders of a sequence, each by its view.
pub open spec fn order_views(orders: Seq<Order>) -> Seq<OrderView> {
    orders.map_values(|o: Order| o@)
}

/// The account of one backtest run.
#[derive(Debug)]
pub struct StrategyContext {
    pub(crate) candles: Vec<Candle>,
    pub(crate) balance: Decimal,
    pub(crate) position: Decimal,
    pub(crate) trades: Vec<Trade>,
    pub(crate) orders: Vec<Order>,
    pub(crate) fees: TradingFees,
    pub(crate) precision: MarketPrecision,
    pub(crate) issued: Vec<u128>,
    pub(crate) opening: Decimal,
}

impl View for StrategyContext {
    type V = ContextView;

    closed spec fn view(&self) -> ContextView {
        ContextView {
            candles: candle_views(self.candles@),
            balance: self.balance@,
            position: self.position@,
            trades: trade_views(self.trades@),
            orders: order_views(self.orders@),
            fees: self.fees@,
            precision: self.precision@,
            issued: self.issued@,
            opening: self.opening.value(),
        }
    }
}

impl StrategyContext {
    /// Whether the context is in a state that the operations keep up.
    pub open spec fn wf(&self) -> bool {
        self@.wf()
    }

    /// A context with `balance` as its cash and nothing else: no candle, no
    /// position, no order, no trade.
    pub fn new(balance: Decimal, fees: TradingFees, precision: MarketPrecision) -> (r: AppResult<
        Self,
    >)
        requires
            balance@.is_input(),
            fees@.wf(),
            precision@.wf(),
        ensures
            r is Ok,
            r->Ok_0.wf(),
            balance.value() >= 0real ==> r->Ok_0@.solvent(),
            r->Ok_0@ == (ContextView {
                candles: Seq::empty(),
                balance: balance@,
                position: DecimalView { unscaled: 0, scale: 0 },
                trades: Seq::empty(),
                orders: Seq::empty(),
                fees: fees@,
                precision: precision@,
                issued: Seq::empty(),
                opening: balance.value(),
            }),
    {
        let context = StrategyContext {
            candles: Vec::new(),
            opening: balance.clone(),
            balance,
            position: Decimal::zero(),
            trades: Vec::new(),
            orders: Vec::new(),
            fees,
            precision,
            issued: Vec::new(),
        };
        proof {
            assert(context@.candles =~= Seq::empty());
            assert(context@.trades =~= Seq::empty());
            assert(context@.orders =~= Seq::empty());
            assert(context@.issued =~= Seq::empty());
            assert(order_ids(context@.orders) =~= Seq::empty());
        }
        Ok(context)
    }

    /// The candles fed so far.
    pub fn candles(&self) -> (r: &[Candle])
        ensures
            candle_views(r@) == self@.candles,
    {
        self.candles.as_slice()
    }

    /// The candle fed last.
    pub fn candle(&self) -> (r: AppResult<Candle>)
        ensures
            match r {
                Ok(c) => self@.candles.len() > 0 && c@ == self@.last_candle(),
                Err(e) => self@.candles.len() == 0 && e == AppError::NoCandle,
            },
    {
        let n = self.candles.len();
        if n == 0 {
            Err(AppError::NoCandle)
        } else {
            Ok(self.candles[n - 1].clone())
        }
    }

    /// The cash.
    pub fn balance(&self) -> (r: Decimal)
        ensures
            r@ == self@.balance,
    {
        self.balance.clone()
    }

    /// The position in the base asset.
    pub fn position(&self) -> (r: Decimal)
        ensures
            r@ == self@.position,
    {
        self.position.clone()
    }

    /// The journal of executed trades.
    pub fn trades(&self) -> (r: &[Trade])
        ensures
            trade_views(r@) == self@.trades,
    {
        self.trades.as_slice()
    }

    /// The resting orders, in the order of placement.
    pub fn orders(&self) -> (r: &[Order])
        ensures
            order_views(r@) == self@.orders,
    {
        self.orders.as_slice()
    }

    /// Buys `amount`, rounded down to the amount step, at the close of the
    /// last candle, and pays the taker fee.
    pub fn market_buy(&mut self, amount: &Decimal) -> (r: AppResult<()>)
        requires
            old(self).wf(),
            amount@.is_input(),
        ensures
            final(self).wf(),
            old(self)@.solvent() ==> final(self)@.solvent(),
            old(self)@.extended_by(final(self)@),
            match r {
                Ok(_) => old(self)@.market_buy(amount@) == Ok::<ContextView, ErrorKind>(
                    final(self)@,
                ),
                Err(e) => old(self)@.market_buy(amount@) == Err::<ContextView, ErrorKind>(
                    e.kind_of(),
                ) && final(self)@ == old(self)@,
            },
    {
        let amount = self.precision.round_amount(amount, RoundingMode::Down);
        if !amount.is_positive() {
            return Err(AppError::InvalidAmount);
        }
        let n = self.candles.len();
        if n == 0 {
            return Err(AppError::NoCandle);
        }
        let price = self.candles[n - 1].close.clone();
        let timestamp = self.candles[n - 1].timestamp;
        let cost = price.mul(&amount);
        let fee_rate = cost.mul(&self.fees.taker);
        let fee = self.precision.round_amount(&fee_rate, RoundingMode::Up);
        let total = cost.add(&fee);
        if total.gt(&self.balance) {
            return Err(AppError::InsufficientFunds);
        }
        let balance = self.balance.sub(&total);
        let position = self.position.add(&amount);
        let trade = Trade {
            timestamp,
            trade_type: TradeType::MarketBuy,
            price,
            amount,
            fee,
            profit: None,
        };
        proof {
            lemma_journal_push(old(self)@.trades, trade@);
            assert(trade_views(self.trades@.push(trade)) =~= old(self)@.trades.push(trade@));
        }
        self.balance = balance;
        self.position = position;
        self.trades.push(trade);
        Ok(())
    }

    /// Sells `amount`, rounded down to the amount step, at the close of the
    /// last candle, and pays the taker fee out of the proceeds.
    pub fn market_sell(&mut self, amount: &Decimal) -> (r: AppResult<()>)
        requires
            old(self).wf(),
            amount@.is_input(),
        ensures
            final(self).wf(),
            old(self)@.solvent() ==> final(self)@.solvent(),
            old(self)@.extended_by(final(self)@),
            match r {
                Ok(_) => old(self)@.market_sell(amount@) == Ok::<ContextView, ErrorKind>(
                    final(self)@,
                ),
                Err(e) => old(self)@.market_sell(amount@) == Err::<ContextView, ErrorKind>(
                    e.kind_of(),
                ) && final(self)@ == old(self)@,
            },
    {
        let amount = self.precision.round_amount(amount, RoundingMode::Down);
        if !amount.is_positive() {
            return Err(AppError::InvalidAmount);
        }
        if amount.gt(&self.position) {
            return Err(AppError::InsufficientPosition);
        }
        let n = self.candles.len();
        if n == 0 {
            return Err(AppError::NoCandle);
        }
        let price = self.candles[n - 1].close.clone();
        let timestamp = self.candles[n - 1].timestamp;
        let proceeds = price.mul(&amount);
        let fee_rate = proceeds.mul(&self.fees.taker);
        let fee = self.precision.round_amount(&fee_rate, RoundingMode::Up);
        let revenue = proceeds.sub(&fee);
        if revenue.is_negative() {
            return Err(AppError::NegativeRevenue);
        }
        let position = self.position.sub(&amount);
        let balance = self.balance.add(&revenue);
        let trade = Trade {
            timestamp,
            trade_type: TradeType::MarketSell,
            price,
            amount,
            fee,
            profit: None,
        };
        proof {
            lemma_journal_push(old(self)@.trades, trade@);
            assert(trade_views(self.trades@.push(trade)) =~= old(self)@.trades.push(trade@));
        }
        self.position = position;
        self.balance = balance;
        self.trades.push(trade);
        Ok(())
    }

    /// Places a limit buy of `amount` at `price`, both rounded down to the
    /// amount step, to be known as `id`. The cost and the maker fee leave the
    /// balance at once. A price at or above the close of the last candle
    /// makes it a market buy, and no order rests.
    pub fn place_limit_buy(&mut self, price: &Decimal, amount: &Decimal, id: u128) -> (r:
        AppResult<Option<u128>>)
        requires
            old(self).wf(),
            price@.is_input(),
            amount@.is_input(),
        ensures
            final(self).wf(),
            old(self)@.solvent() && price.value() >= 0real ==> final(self)@.solvent(),
            old(self)@.extended_by(final(self)@),
            match r {
                Ok(resting) => old(self)@.limit_buy(price@, amount@, id) == Ok::<
                    (ContextView, Option<u128>),
                    ErrorKind,
                >((final(self)@, resting)),
                Err(e) => old(self)@.limit_buy(price@, amount@, id) == Err::<
                    (ContextView, Option<u128>),
                    ErrorKind,
                >(e.kind_of()) && final(self)@ == old(self)@,
            },
    {
        let price = self.precision.round_amount(price, RoundingMode::Down);
        let amount = self.precision.round_amount(amount, RoundingMode::Down);
        if !amount.is_positive() {
            return Err(AppError::InvalidAmount);
        }
        let n = self.candles.len();
        if n == 0 {
            return Err(AppError::NoCandle);
        }
        if price.ge(&self.candles[n - 1].close) {
            return match self.market_buy(&amount) {
                Ok(_) => Ok(None),
                Err(e) => Err(e),
            };
        }
        let cost = amount.mul(&price);
        let fee_rate = cost.mul(&self.fees.maker);
        let fee = self.precision.round_amount(&fee_rate, RoundingMode::Up);
        let total = cost.add(&fee);
        if total.gt(&self.balance) {
            return Err(AppError::InsufficientFunds);
        }
        if contains_id(&self.issued, id) {
            return Err(AppError::Internal("Order identifier already in use".to_owned()));
        }
        let balance = self.balance.sub(&total);
        let order = Order { id, order_type: OrderType::LimitBuy, price, amount, fee };
        proof {
            assert(price@.value() >= 0real ==> fee_rate@.value() >= 0real) by (nonlinear_arith)
                requires
                    cost@.value() == amount@.value() * price@.value(),
                    fee_rate@.value() == cost@.value() * self.fees.maker@.value(),
                    amount@.value() > 0real,
                    self.fees.maker@.value() >= 0real,
            ;
            assert(order@.reserved_cash() == total@.value()) by (nonlinear_arith)
                requires
                    order@.reserved_cash() == price@.value() * amount@.value() + fee@.value(),
                    total@.value() == amount@.value() * price@.value() + fee@.value(),
            ;
            self.lemma_rest(order);
        }
        self.balance = balance;
        self.orders.push(order);
        self.issued.push(id);
        Ok(Some(id))
    }

    /// Places a limit buy under a fresh random identifier.
    pub fn limit_buy(&mut self, price: &Decimal, amount: &Decimal) -> (r: AppResult<Option<u128>>)
        requires
            old(self).wf(),
            price@.is_input(),
            amount@.is_input(),
        ensures
            final(self).wf(),
            old(self)@.solvent() && price.value() >= 0real ==> final(self)@.solvent(),
            old(self)@.extended_by(final(self)@),
            exists|id: u128|
                match r {
                    Ok(resting) => old(self)@.limit_buy(price@, amount@, id) == Ok::<
                        (ContextView, Option<u128>),
                        ErrorKind,
                    >((final(self)@, resting)),
                    Err(e) => #[trigger] old(self)@.limit_buy(price@, amount@, id) == Err::<
                        (ContextView, Option<u128>),
                        ErrorKind,
                    >(e.kind_of()) && final(self)@ == old(self)@,
                },
    {
        let id = random_order_id();
        self.place_limit_buy(price, amount, id)
    }

    /// Places a limit sell of `amount` at `price`, both rounded down to the
    /// amount step, to be known as `id`. The amount leaves the position and
    /// the maker fee leaves the balance at once. A price at or below the
    /// close of the last candle makes it a market sell, and no order rests.
    pub fn place_limit_sell(&mut self, price: &Decimal, amount: &Decimal, id: u128) -> (r:
        AppResult<Option<u128>>)
        requires
            old(self).wf(),
            price@.is_input(),
            amount@.is_input(),
        ensures
            final(self).wf(),
            old(self)@.solvent() && price.value() >= 0real ==> final(self)@.solvent(),
            old(self)@.extended_by(final(self)@),
            match r {
                Ok(resting) => old(self)@.limit_sell(price@, amount@, id) == Ok::<
                    (ContextView, Option<u128>),
                    ErrorKind,
                >((final(self)@, resting)),
                Err(e) => old(self)@.limit_sell(price@, amount@, id) == Err::<
                    (ContextView, Option<u128>),
                    ErrorKind,
                >(e.kind_of()) && final(self)@ == old(self)@,
            },
    {
        let price = self.precision.round_amount(price, RoundingMode::Down);
        let amount = self.precision.round_amount(amount, RoundingMode::Down);
        if !amount.is_positive() {
            return Err(AppError::InvalidAmount);
        }
        if amount.gt(&self.position) {
            return Err(AppError::InsufficientPosition);
        }
        let n = self.candles.len();
        if n == 0 {
            return Err(AppError::NoCandle);
        }
        if price.le(&self.candles[n - 1].close) {
            return match self.market_sell(&amount) {
                Ok(_) => Ok(None),
                Err(e) => Err(e),
            };
        }
        let proceeds = price.mul(&amount);
        let fee_rate = proceeds.mul(&self.fees.maker);
        let fee = self.precision.round_amount(&fee_rate, RoundingMode::Up);
        if fee.gt(&self.balance) {
            return Err(AppError::InsufficientFunds);
        }
        if contains_id(&self.issued, id) {
            return Err(AppError::Internal("Order identifier already in use".to_owned()));
        }
        let position = self.position.sub(&amount);
        let balance = self.balance.sub(&fee);
        let order = Order { id, order_type: OrderType::LimitSell, price, amount, fee };
        proof {
            assert(price@.value() >= 0real ==> fee_rate@.value() >= 0real) by (nonlinear_arith)
                requires
                    proceeds@.value() == price@.value() * amount@.value(),
                    fee_rate@.value() == proceeds@.value() * self.fees.maker@.value(),
                    amount@.value() > 0real,
                    self.fees.maker@.value() >= 0real,
            ;
            self.lemma_rest(order);
        }
        self.position = position;
        self.balance = balance;
        self.orders.push(order);
        self.issued.push(id);
        Ok(Some(id))
    }

    /// Places a limit sell under a fresh random identifier.
    pub fn limit_sell(&mut self, price: &Decimal, amount: &Decimal) -> (r: AppResult<
        Option<u128>,
    >)
        requires
            old(self).wf(),
            price@.is_input(),
            amount@.is_input(),
        ensures
            final(self).wf(),
            old(self)@.solvent() && price.value() >= 0real ==> final(self)@.solvent(),
            old(self)@.extended_by(final(self)@),
            exists|id: u128|
                match r {
                    Ok(resting) => old(self)@.limit_sell(price@, amount@, id) == Ok::<
                        (ContextView, Option<u128>),
                        ErrorKind,
                    >((final(self)@, resting)),
                    Err(e) => #[trigger] old(self)@.limit_sell(price@, amount@, id) == Err::<
                        (ContextView, Option<u128>),
                        ErrorKind,
                    >(e.kind_of()) && final(self)@ == old(self)@,
                },
    {
        let id = random_order_id();
        self.place_limit_sell(price, amount, id)
    }

    /// Cancels the resting order at `index` and returns what it held back.
    fn cancel_at(&mut self, index: usize)
        requires
            old(self).wf(),
            index < old(self)@.orders.len(),
        ensures
            final(self).wf(),
            old(self)@.solvent() ==> final(self)@.solvent(),
            old(self)@.extended_by(final(self)@),
            final(self)@ == old(self)@.cancel_at(index as int),
    {
        proof {
            let orders = old(self)@.orders;
            let rest = orders.remove(index as int);
            assert(order_views(self.orders@.remove(index as int)) =~= rest);
            assert(orders[index as int].wf());
            lemma_reserved_remove(orders, index as int);
            assert forall|i: int, j: int| 0 <= i < j < order_ids(rest).len() implies order_ids(
                rest,
            )[i] != order_ids(rest)[j] by {
                let a = if i < index { i } else { i + 1 };
                let b = if j < index { j } else { j + 1 };
                assert(order_ids(orders)[a] != order_ids(orders)[b]);
            }
            assert forall|i: int| 0 <= i < rest.len() implies (#[trigger] rest[i]).wf()
                && self@.issued.contains(rest[i].id) by {
                let a = if i < index { i } else { i + 1 };
                assert(rest[i] == orders[a]);
            }
        }
        let order = self.orders.remove(index);
        match order.order_type {
            OrderType::LimitBuy => {
                let cost = order.price.mul(&order.amount);
                let refund = cost.add(&order.fee);
                proof {
                    assert(order.price@.value() >= 0real ==> cost@.value() >= 0real) by (nonlinear_arith)
                        requires
                            cost@.value() == order.price@.value() * order.amount@.value(),
                            order.amount@.value() > 0real,
                    ;
                }
                self.balance = self.balance.add(&refund);
            },
            OrderType::LimitSell => {
                self.position = self.position.add(&order.amount);
                self.balance = self.balance.add(&order.fee);
            },
        }
    }

    /// Cancels the resting order known as `order_id` and returns what it
    /// held back: cost and fee of a buy to the balance; the amount of a sell
    /// to the position and its fee to the balance. Nothing happens where no
    /// such order rests.
    pub fn cancel_order(&mut self, order_id: u128)
        requires
            old(self).wf(),
        ensures
            final(self).wf(),
            old(self)@.solvent() ==> final(self)@.solvent(),
            old(self)@.extended_by(final(self)@),
            final(self)@ == old(self)@.cancel_order(order_id),
    {
        let mut i: usize = 0;
        while i < self.orders.len()
            invariant
                *self == *old(self),
                self.wf(),
                i <= self.orders.len(),
                forall|k: int| 0 <= k < i ==> self.orders@[k].id != order_id,
            decreases self.orders.len() - i,
        {
            if self.orders[i].id == order_id {
                proof {
                    let ids = order_ids(self@.orders);
                    assert(ids[i as int] == order_id);
                    assert(ids.contains(order_id));
                    let at = ids.index_of(order_id);
                    assert(ids[at] == order_id);
                    if at != i as int {
                        if at < i {
                            assert(ids[at] != ids[i as int]);
                        } else {
                            assert(ids[i as int] != ids[at]);
                        }
                    }
                }
                self.cancel_at(i);
                return ;
            }
            i += 1;
        }
        proof {
            let ids = order_ids(self@.orders);
            if ids.contains(order_id) {
                let k = choose|k: int| 0 <= k < ids.len() && ids[k] == order_id;
                assert(self.orders@[k].id == order_id);
            }
        }
    }

    /// Fills the resting order at `index` at its own price and journals the
    /// fill at the last candle.
    fn fill_at(&mut self, index: usize)
        requires
            old(self).wf(),
            index < old(self)@.orders.len(),
            old(self)@.candles.len() > 0,
        ensures
            final(self).wf(),
            old(self)@.solvent() ==> final(self)@.solvent(),
            old(self)@.extended_by(final(self)@),
            final(self)@ == old(self)@.fill_at(index as int),
    {
        proof {
            let orders = old(self)@.orders;
            let rest = orders.remove(index as int);
            assert(order_views(self.orders@.remove(index as int)) =~= rest);
            assert(orders[index as int].wf());
            lemma_reserved_remove(orders, index as int);
            assert forall|i: int, j: int| 0 <= i < j < order_ids(rest).len() implies order_ids(
                rest,
            )[i] != order_ids(rest)[j] by {
                let a = if i < index { i } else { i + 1 };
                let b = if j < index { j } else { j + 1 };
                assert(order_ids(orders)[a] != order_ids(orders)[b]);
            }
            assert forall|i: int| 0 <= i < rest.len() implies (#[trigger] rest[i]).wf()
                && self@.issued.contains(rest[i].id) by {
                let a = if i < index { i } else { i + 1 };
                assert(rest[i] == orders[a]);
            }
        }
        let n = self.candles.len();
        let timestamp = self.candles[n - 1].timestamp;
        let order = self.orders.remove(index);
        let trade_type = match order.order_type {
            OrderType::LimitBuy => {
                self.position = self.position.add(&order.amount);
                TradeType::LimitBuy
            },
            OrderType::LimitSell => {
                let proceeds = order.price.mul(&order.amount);
                proof {
                    assert(order.price@.value() >= 0real ==> proceeds@.value() >= 0real) by (nonlinear_arith)
                        requires
                            proceeds@.value() == order.price@.value() * order.amount@.value(),
                            order.amount@.value() > 0real,
                    ;
                }
                self.balance = self.balance.add(&proceeds);
                TradeType::LimitSell
            },
        };
        let trade = Trade {
            timestamp,
            trade_type,
            price: order.price,
            amount: order.amount,
            fee: order.fee,
            profit: None,
        };
        proof {
            lemma_journal_push(old(self)@.trades, trade@);
            assert(trade_views(self.trades@.push(trade)) =~= old(self)@.trades.push(trade@));
        }
        self.trades.push(trade);
    }

    /// Matches the resting orders against the last candle, in the order of
    /// placement: a buy whose price the candle's low reaches, and a sell
    /// whose price the candle's high reaches, is filled at its own price.
    pub fn before(&mut self) -> (r: AppResult<()>)
        requires
            old(self).wf(),
        ensures
            final(self).wf(),
            old(self)@.solvent() ==> final(self)@.solvent(),
            old(self)@.extended_by(final(self)@),
            match r {
                Ok(_) => old(self)@.candles.len() > 0 && final(self)@ == old(self)@.before(),
                Err(e) => old(self)@.candles.len() == 0 && e == AppError::NoCandle && final(self)@
                    == old(self)@,
            },
    {
        let n = self.candles.len();
        if n == 0 {
            return Err(AppError::NoCandle);
        }
        let mut i: usize = 0;
        while i < self.orders.len()
            invariant
                self.wf(),
                old(self)@.solvent() ==> self@.solvent(),
                old(self)@.extended_by(self@),
                self@.candles.len() > 0,
                n == self.candles.len(),
                self@.sweep(i as int) == old(self)@.sweep(0),
            decreases self.orders.len() - i,
        {
            let fills = match self.orders[i].order_type {
                OrderType::LimitBuy => self.orders[i].price.ge(&self.candles[n - 1].low),
                OrderType::LimitSell => self.orders[i].price.le(&self.candles[n - 1].high),
            };
            if fills {
                self.fill_at(i);
            } else {
                i += 1;
            }
        }
        Ok(())
    }

    /// The bookkeeping at the end of a tick: there is none.
    pub fn after(&mut self) -> (r: AppResult<()>)
        ensures
            r is Ok,
            final(self)@ == old(self)@,
    {
        Ok(())
    }

    /// Ends the run: cancels every resting order, in the order of placement.
    pub fn end(&mut self) -> (r: AppResult<()>)
        requires
            old(self).wf(),
        ensures
            r is Ok,
            final(self).wf(),
            old(self)@.solvent() ==> final(self)@.solvent(),
            old(self)@.extended_by(final(self)@),
            final(self)@ == old(self)@.end(),
            final(self)@.orders.len() == 0,
    {
        while self.orders.len() > 0
            invariant
                self.wf(),
                old(self)@.solvent() ==> self@.solvent(),
                old(self)@.extended_by(self@),
                self@.end() == old(self)@.end(),
            decreases self.orders.len(),
        {
            self.cancel_at(0);
        }
        Ok(())
    }

    /// Feeds the next candle.
    pub fn feed(&mut self, candle: Candle)
        requires
            old(self).wf(),
            candle@.is_input(),
            old(self)@.candles.len() > 0 ==> old(self)@.last_candle().timestamp
                < candle@.timestamp,
        ensures
            final(self).wf(),
            old(self)@.solvent() ==> final(self)@.solvent(),
            final(self)@ == old(self)@.feed(candle@),
    {
        proof {
            assert(candle_views(self.candles@.push(candle)) =~= old(self)@.candles.push(candle@));
        }
        self.candles.push(candle);
    }

    /// The step sizes of the market.
    pub fn precision(&self) -> (r: &MarketPrecision)
        ensures
            r@ == self@.precision,
    {
        &self.precision
    }
}

impl StrategyContext {
    /// A new order whose identifier was never given out keeps the context
    /// well formed, if the balance and the position give up what it holds
    /// back.
    proof fn lemma_rest(&self, order: Order)
        requires
            self.wf(),
            order@.wf(),
            !self@.issued.contains(order.id),
        ensures
            order_views(self.orders@.push(order)) == self@.orders.push(order@),
            distinct(order_ids(self@.orders.push(order@))),
            distinct(self@.issued.push(order.id)),
            reserved_cash(self@.orders.push(order@)) == reserved_cash(self@.orders)
                + order@.reserved_cash(),
            reserved_position(self@.orders.push(order@)) == reserved_position(self@.orders)
                + order@.reserved_position(),
            forall|i: int|
                0 <= i < self@.orders.push(order@).len() ==> self@.issued.push(order.id).contains(
                    (#[trigger] self@.orders.push(order@)[i]).id,
                ),
    {
        let orders = self@.orders;
        let next = orders.push(order@);
        assert(order_views(self.orders@.push(order)) =~= next);
        lemma_reserved_push(orders, order@);
        let issued = self@.issued.push(order.id);
        assert forall|i: int| 0 <= i < next.len() implies issued.contains((#[trigger] next[i]).id) by {
            if i < orders.len() {
                assert(self@.issued.contains(orders[i].id));
                let k = choose|k: int| 0 <= k < self@.issued.len() && self@.issued[k] == orders[i].id;
                assert(issued[k] == orders[i].id);
            } else {
                assert(issued[issued.len() - 1] == order.id);
            }
        }
        assert forall|i: int, j: int| 0 <= i < j < order_ids(next).len() implies order_ids(next)[i]
            != order_ids(next)[j] by {
            if j < orders.len() {
                assert(order_ids(orders)[i] != order_ids(orders)[j]);
            } else {
                assert(self@.issued.contains(orders[i].id));
            }
        }
    }
}

/// Whether `id` occurs in `ids`.
fn contains_id(ids: &Vec<u128>, id: u128) -> (r: bool)
    ensures
        r == ids@.contains(id),
{
    let mut i: usize = 0;
    while i < ids.len()
        invariant
            i <= ids.len(),
            forall|k: int| 0 <= k < i ==> ids@[k] != id,
        decreases ids.len() - i,
    {
        if ids[i] == id {
            return true;
        }
        i += 1;
    }
    false
}

/// `Uuid::new_v4`, as a 128-bit integer: a random identifier, of which
/// nothing is promised.
#[verifier::external_body]
fn random_order_id() -> (r: u128) {
    Uuid::new_v4().as_u128()
}

} // verus!
