//! One bar of market history.

use crate::decimal::{Decimal, DecimalView};
use vstd::prelude::*;

verus! {

/// An OHLCV bar of a fixed timeframe. The timestamp is in milliseconds
/// since the Unix epoch.
#[derive(Debug)]
pub struct Candle {
    pub timestamp: i64,
    pub open: Decimal,
    pub high: Decimal,
    pub low: Decimal,
    pub close: Decimal,
    pub volume: Decimal,
}

/// The mathematical content of a [`Candle`].
pub ghost struct CandleView {
    pub timestamp: int,
    pub open: DecimalView,
    pub high: DecimalView,
    pub low: DecimalView,
    pub close: DecimalView,
    pub volume: DecimalView,
}

impl CandleView {
    /// Every price of the candle is fit to be handed to the library.
    pub open spec fn is_input(self) -> bool {
        &&& self.open.is_input()
        &&& self.high.is_input()
        &&& self.low.is_input()
        &&& self.close.is_input()
        &&& self.volume.is_input()
    }
}

impl View for Candle {
    type V = CandleView;

    open spec fn view(&self) -> CandleView {
        CandleView {
            timestamp: self.timestamp as int,
            open: self.open@,
            high: self.high@,
            low: self.low@,
            close: self.close@,
            volume: self.volume@,
        }
    }
}

impl Clone for Candle {
    fn clone(&self) -> (r: Self)
        ensures
            r@ == self@,
    {
        Candle {
            timestamp: self.timestamp,
            open: self.open.clone(),
            high: self.high.clone(),
            low: self.low.clone(),
            close: self.close.clone(),
            volume: self.volume.clone(),
        }
    }
}

impl Candle {
    /// Whether every price of the candle is fit to be handed to the library.
    pub fn is_input(&self) -> (r: bool)
        ensures
            r == self@.is_input(),
    {
        self.open.is_input() && self.high.is_input() && self.low.is_input()
            && self.close.is_input() && self.volume.is_input()
    }
}

/// The candles of a sequence, each by its view.
pub open spec fn candle_views(candles: Seq<Candle>) -> Seq<CandleView> {
    candles.map_values(|c: Candle| c@)
}

/// The timestamps strictly increase along the sequence.
pub open spec fn strictly_increasing(candles: Seq<CandleView>) -> bool {
    forall|i: int, j: int|
        0 <= i < j < candles.len() ==> candles[i].timestamp < candles[j].timestamp
}

} // verus!
