use bigdecimal::num_bigint::BigInt;
use bigdecimal::{BigDecimal, ToPrimitive};
use merco::decimal::Decimal;
use merco::models::Candle;
use merco::strategy::{Trade, TradeType};
use merco::tasks::backtest::{BacktestStatistic, Ratio, SharpeBasis};
use merco::tasks::statistic::{calculate_backtest_statistic, sharpe_basis, Tally};
use std::str::FromStr;

fn dec(text: &str) -> Decimal {
    Decimal::parse(text).expect("a decimal")
}

fn big(d: &Decimal) -> BigDecimal {
    BigDecimal::new(BigInt::from_signed_bytes_le(d.bytes()), d.scale())
}

fn same(d: &Decimal, text: &str) -> bool {
    big(d) == BigDecimal::from_str(text).unwrap()
}

fn candle(timestamp: i64, high: &str, low: &str) -> Candle {
    Candle {
        timestamp,
        open: dec(low),
        high: dec(high),
        low: dec(low),
        close: dec(high),
        volume: dec("1"),
    }
}

fn trade(timestamp: i64, trade_type: TradeType, price: &str, amount: &str, fee: &str) -> Trade {
    Trade {
        timestamp,
        trade_type,
        price: dec(price),
        amount: dec(amount),
        fee: dec(fee),
        profit: None,
    }
}

fn with_profit(profit: Option<&str>) -> Trade {
    Trade {
        timestamp: 1,
        trade_type: TradeType::MarketSell,
        price: dec("1"),
        amount: dec("1"),
        fee: dec("0"),
        profit: profit.map(dec),
    }
}

fn statistic(capital: &str, candles: &[Candle], trades: &[Trade]) -> BacktestStatistic {
    calculate_backtest_statistic(dec(capital), candles, trades).expect("a statistic")
}

fn sharpe(basis: &SharpeBasis, capital: f64) -> f32 {
    match basis {
        SharpeBasis::Zero => 0.0,
        SharpeBasis::Infinite => f32::INFINITY,
        SharpeBasis::Sample(profits) => {
            let returns: Vec<f64> =
                profits.iter().map(|p| big(p).to_f64().unwrap_or(0.0) / capital).collect();
            let mean = returns.iter().sum::<f64>() / returns.len() as f64;
            let variance =
                returns.iter().map(|r| (r - mean) * (r - mean)).sum::<f64>() / returns.len() as f64;
            let deviation = variance.sqrt();
            if deviation == 0.0 {
                f32::INFINITY
            } else {
                (mean / deviation) as f32
            }
        }
    }
}

#[test]
fn single_market_round_trip_win() {
    let candles = [candle(1, "100", "100"), candle(2, "110", "110")];
    let trades = [
        trade(1, TradeType::MarketBuy, "100", "1.000", "0.100"),
        trade(2, TradeType::MarketSell, "110", "1.000", "0.110"),
    ];
    let s = statistic("10000", &candles, &trades);
    assert_eq!(s.buy_trades, 1);
    assert_eq!(s.sell_trades, 1);
    assert_eq!(s.total_trades, 2);
    assert_eq!(s.winning_trades, 1);
    assert_eq!(s.losing_trades, 0);
    assert!(same(&s.gross_profit, "9.79"));
    assert!(same(&s.gross_loss, "0"));
    assert!(same(&s.net_profit, "9.79"));
    assert!(matches!(s.profit_factor, Ratio::Infinite));
    assert!(same(&s.avg_win, "9.79"));
    assert!(same(&s.avg_loss, "0"));
    assert!(same(&s.largest_win, "9.79"));
    assert!(same(&s.largest_loss, "0"));
    assert!(same(&s.total_cost, "0"));
    assert!(same(&s.initial_capital, "10000"));
    assert!(same(s.return_ratio.as_ref().unwrap(), "0.000979"));
    assert_eq!(100.0 * s.winning_trades as f32 / s.sell_trades as f32, 100.0);
    assert_eq!(s.trades.len(), 2);
    assert!(s.trades[0].profit.is_none());
    assert!(same(s.trades[1].profit.as_ref().unwrap(), "9.79"));
    assert!(matches!(s.sharpe_basis, SharpeBasis::Infinite));
}

#[test]
fn a_losing_round_trip() {
    let candles = [candle(1, "100", "100"), candle(2, "90", "90")];
    let trades = [
        trade(1, TradeType::MarketBuy, "100", "2", "0.2"),
        trade(2, TradeType::MarketSell, "90", "2", "0.18"),
    ];
    let s = statistic("10000", &candles, &trades);
    assert_eq!(s.winning_trades, 0);
    assert_eq!(s.losing_trades, 1);
    // revenue 179.82, cost 200.2
    assert!(same(&s.gross_loss, "-20.38"));
    assert!(same(&s.gross_profit, "0"));
    assert!(same(&s.net_profit, "-20.38"));
    assert!(same(&s.largest_loss, "-20.38"));
    assert!(same(&s.avg_loss, "-20.38"));
    match &s.profit_factor {
        Ratio::Finite(f) => assert!(same(f, "0")),
        other => panic!("{:?}", other),
    }
    assert!(same(s.return_ratio.as_ref().unwrap(), "-0.002038"));
}

#[test]
fn profit_factor_is_gross_profit_over_the_loss() {
    let candles = [candle(1, "100", "100"), candle(4, "100", "100")];
    let trades = [
        trade(1, TradeType::MarketBuy, "100", "2", "0"),
        trade(2, TradeType::MarketSell, "130", "1", "0"),
        trade(3, TradeType::LimitSell, "90", "1", "0"),
    ];
    let s = statistic("10000", &candles, &trades);
    assert!(same(&s.gross_profit, "30"));
    assert!(same(&s.gross_loss, "-10"));
    assert!(same(&s.net_profit, "20"));
    match &s.profit_factor {
        Ratio::Finite(f) => assert!(same(f, "3")),
        other => panic!("{:?}", other),
    }
    assert_eq!(s.winning_trades, 1);
    assert_eq!(s.losing_trades, 1);
    assert_eq!(s.sell_trades, 2);
    assert_eq!(100.0 * s.winning_trades as f32 / s.sell_trades as f32, 50.0);
}

#[test]
fn no_trades_no_statistic_to_speak_of() {
    let candles = [candle(1, "100", "90")];
    let s = statistic("10000", &candles, &[]);
    assert_eq!(s.total_trades, 0);
    assert!(matches!(s.profit_factor, Ratio::Zero));
    assert!(matches!(s.sharpe_basis, SharpeBasis::Zero));
    assert!(same(&s.net_profit, "0"));
    assert!(same(&s.max_equity, "10000"));
    assert!(same(&s.max_drawdown, "0"));
    assert!(s.max_drawdown_ratio.is_none());
    assert!(same(s.return_ratio.as_ref().unwrap(), "0"));
    assert!(same(&s.avg_win, "0"));
}

#[test]
fn no_initial_capital_no_return() {
    let s = statistic("0", &[candle(1, "100", "90")], &[]);
    assert!(s.return_ratio.is_none());
    assert!(same(&s.max_equity, "0"));
}

#[test]
fn drawdown_detection() {
    let candles = [candle(1, "100", "100"), candle(2, "120", "120"), candle(3, "80", "80")];
    let trades = [trade(1, TradeType::MarketBuy, "100", "100", "0")];
    let s = statistic("10000", &candles, &trades);
    assert!(same(&s.max_equity, "12000"));
    assert!(same(&s.max_drawdown, "4000"));
    let ratio = big(s.max_drawdown_ratio.as_ref().unwrap()).to_f32().unwrap() * 100.0;
    assert!((ratio - 33.33).abs() < 0.01, "{}", ratio);
    assert!(same(&s.total_cost, "10000"));
}

#[test]
fn drawdown_within_one_candle() {
    let candles = [candle(1, "120", "80")];
    let trades = [trade(1, TradeType::MarketBuy, "100", "100", "0")];
    let s = statistic("10000", &candles, &trades);
    assert!(same(&s.max_equity, "12000"));
    assert!(same(&s.max_drawdown, "4000"));
}

#[test]
fn the_highest_equity_never_falls() {
    let mut tally = Tally::start(&dec("10000"));
    assert!(tally.record(&trade(1, TradeType::MarketBuy, "100", "10", "1")));
    let mut last_equity = dec("10000");
    let mut last_drawdown = dec("0");
    for (t, high, low) in [(1, "100", "95"), (2, "140", "60"), (3, "70", "50"), (4, "141", "141")] {
        tally.mark(&candle(t, high, low));
        assert!(tally.max_equity().ge(&last_equity));
        assert!(tally.max_drawdown().ge(&last_drawdown));
        assert!(!tally.max_drawdown().is_negative());
        last_equity = tally.max_equity();
        last_drawdown = tally.max_drawdown();
    }
    // 8999 + 10 * 141, and from 8999 + 10 * 140 down to 8999 + 10 * 50
    assert!(same(&last_equity, "10409"));
    assert!(same(&last_drawdown, "900"));
}

#[test]
fn average_cost_over_several_buys() {
    let candles = [candle(5, "100", "100")];
    let trades = [
        trade(1, TradeType::MarketBuy, "100", "1", "0"),
        trade(2, TradeType::LimitBuy, "200", "1", "0"),
        trade(3, TradeType::MarketSell, "180", "1", "0"),
        trade(4, TradeType::MarketSell, "180", "1", "0"),
    ];
    let s = statistic("10000", &candles, &trades);
    assert_eq!(s.buy_trades, 2);
    assert_eq!(s.sell_trades, 2);
    assert_eq!(s.winning_trades, 2);
    assert!(same(s.trades[2].profit.as_ref().unwrap(), "30"));
    assert!(same(s.trades[3].profit.as_ref().unwrap(), "30"));
    assert!(same(&s.gross_profit, "60"));
    assert!(same(&s.avg_win, "30"));
    assert!(same(&s.total_cost, "0"));
    assert_eq!(sharpe(&s.sharpe_basis, 10000.0), f32::INFINITY);
}

#[test]
fn averages_are_rounded_half_up_to_two_places() {
    let candles = [candle(9, "100", "100")];
    let trades = [
        trade(1, TradeType::MarketBuy, "100", "3", "0"),
        trade(2, TradeType::MarketSell, "100.005", "1", "0"),
        trade(3, TradeType::MarketSell, "100.01", "1", "0"),
        trade(4, TradeType::MarketSell, "100.02", "1", "0"),
    ];
    let s = statistic("10000", &candles, &trades);
    assert!(same(&s.gross_profit, "0.035"));
    // 0.035 / 3 = 0.011666...
    assert!(same(&s.avg_win, "0.01"));
    assert!(same(&s.net_profit, "0.04"));
    assert!(same(&s.largest_win, "0.02"));
}

#[test]
fn a_sell_without_a_position_costs_nothing() {
    let candles = [candle(1, "100", "100")];
    let trades = [trade(1, TradeType::MarketSell, "50", "1", "1")];
    let s = statistic("10000", &candles, &trades);
    assert!(same(s.trades[0].profit.as_ref().unwrap(), "49"));
    assert_eq!(s.winning_trades, 1);
}

#[test]
fn trades_are_booked_before_the_candle_of_their_time() {
    let candles = [candle(1, "100", "100"), candle(2, "200", "200"), candle(3, "100", "100")];
    let early = [trade(2, TradeType::MarketBuy, "100", "10", "0")];
    let late = [trade(3, TradeType::MarketBuy, "100", "10", "0")];
    assert!(same(&statistic("10000", &candles, &early).max_equity, "11000"));
    assert!(same(&statistic("10000", &candles, &late).max_equity, "10000"));
}

#[test]
fn trades_after_the_last_candle_are_booked_too() {
    let candles = [candle(1, "100", "100")];
    let trades = [
        trade(1, TradeType::MarketBuy, "100", "1", "0"),
        trade(5, TradeType::MarketSell, "150", "1", "0"),
    ];
    let s = statistic("10000", &candles, &trades);
    assert_eq!(s.total_trades, 2);
    assert!(same(&s.gross_profit, "50"));
    assert!(same(&s.max_equity, "10000"));
}

#[test]
fn no_candles_at_all() {
    let trades = [trade(1, TradeType::MarketBuy, "100", "1", "0")];
    let s = statistic("10000", &[], &trades);
    assert_eq!(s.buy_trades, 1);
    assert!(same(&s.max_equity, "10000"));
}

#[test]
fn sharpe_corner_cases() {
    assert!(matches!(sharpe_basis(&[]), SharpeBasis::Zero));
    assert!(matches!(sharpe_basis(&[with_profit(None)]), SharpeBasis::Zero));
    assert!(matches!(sharpe_basis(&[with_profit(Some("0.00"))]), SharpeBasis::Zero));
    assert!(matches!(sharpe_basis(&[with_profit(Some("5"))]), SharpeBasis::Infinite));
    assert!(matches!(
        sharpe_basis(&[with_profit(None), with_profit(Some("5")), with_profit(Some("0"))]),
        SharpeBasis::Infinite
    ));
    let equal = sharpe_basis(&[with_profit(Some("5")), with_profit(Some("5.0"))]);
    assert_eq!(sharpe(&equal, 10000.0), f32::INFINITY);
    let differing = sharpe_basis(&[
        with_profit(Some("10")),
        with_profit(None),
        with_profit(Some("30")),
        with_profit(Some("0")),
    ]);
    match &differing {
        SharpeBasis::Sample(profits) => {
            assert_eq!(profits.len(), 2);
            assert!(same(&profits[0], "10"));
            assert!(same(&profits[1], "30"));
        }
        other => panic!("{:?}", other),
    }
    // mean 0.002, deviation 0.001
    let ratio = sharpe(&differing, 10000.0);
    assert!(ratio.is_finite());
    assert!((ratio - 2.0).abs() < 1e-5, "{}", ratio);
}

#[test]
fn a_sell_is_booked_at_the_average_cost_handed_in() {
    let mut tally = Tally::start(&dec("1000"));
    assert!(tally.record(&trade(1, TradeType::MarketBuy, "10", "3", "0.3")));
    let cost = tally.average_cost();
    assert!(same(&cost, "10.1"));
    assert!(cost.is_moderate());
    tally.record_sell(&trade(2, TradeType::MarketSell, "12", "1", "0.1"), &cost);
    let s = tally.finish(dec("1000"));
    // revenue 11.9 against a cost of 10.1
    assert!(same(s.trades[1].profit.as_ref().unwrap(), "1.8"));
    assert!(same(&s.total_cost, "20.2"));
    assert_eq!(s.sell_trades, 1);
}

#[test]
fn book_due_stops_at_the_first_later_trade() {
    let trades = [
        trade(1, TradeType::MarketBuy, "10", "1", "0"),
        trade(2, TradeType::MarketBuy, "10", "1", "0"),
        trade(5, TradeType::MarketBuy, "10", "1", "0"),
        trade(3, TradeType::MarketBuy, "10", "1", "0"),
    ];
    let mut tally = Tally::start(&dec("1000"));
    assert_eq!(tally.book_due(&trades, 0, 0), Some(0));
    assert_eq!(tally.book_due(&trades, 0, 2), Some(2));
    assert_eq!(tally.book_due(&trades, 2, 4), Some(2));
    assert_eq!(tally.book_due(&trades, 2, i64::MAX), Some(4));
    assert_eq!(tally.finish(dec("1000")).buy_trades, 4);
}
