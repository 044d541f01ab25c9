//! What an exchange fixes for a market: its fees and its step sizes.

use crate::decimal::{
    decimal_product, decimal_quotient, decimal_rounded, pow10, round_to_integer, Decimal,
    DecimalView, RoundingMode,
};
use vstd::prelude::*;

verus! {

/// The fee rates of a market, as fractions of the traded value.
#[derive(Debug)]
pub struct TradingFees {
    pub maker: Decimal,
    pub taker: Decimal,
}

/// The mathematical content of [`TradingFees`].
pub ghost struct FeesView {
    pub maker: DecimalView,
    pub taker: DecimalView,
}

impl FeesView {
    /// Both rates are fit to be handed to the library and not negative.
    pub open spec fn wf(self) -> bool {
        &&& self.maker.is_input()
        &&& self.taker.is_input()
        &&& self.maker.value() >= 0real
        &&& self.taker.value() >= 0real
    }
}

impl View for TradingFees {
    type V = FeesView;

    open spec fn view(&self) -> FeesView {
        FeesView { maker: self.maker@, taker: self.taker@ }
    }
}

impl Clone for TradingFees {
    fn clone(&self) -> (r: Self)
        ensures
            r@ == self@,
    {
        TradingFees { maker: self.maker.clone(), taker: self.taker.clone() }
    }
}

impl TradingFees {
    /// Whether both rates are fit to be handed to the library and not negative.
    pub fn is_wf(&self) -> (r: bool)
        ensures
            r == self@.wf(),
    {
        self.maker.is_input() && self.taker.is_input() && !self.maker.is_negative()
            && !self.taker.is_negative()
    }
}

/// The step sizes of a market: prices are multiples of the one, amounts of
/// the other. A step of zero switches the rounding off.
#[derive(Debug)]
pub struct MarketPrecision {
    pub price_precision: Decimal,
    pub amount_precision: Decimal,
}

/// The mathematical content of [`MarketPrecision`].
pub ghost struct PrecisionView {
    pub price_step: DecimalView,
    pub amount_step: DecimalView,
}

impl PrecisionView {
    /// Both steps are fit to be handed to the library and not negative.
    pub open spec fn wf(self) -> bool {
        &&& self.price_step.is_input()
        &&& self.amount_step.is_input()
        &&& self.price_step.value() >= 0real
        &&& self.amount_step.value() >= 0real
    }
}

impl View for MarketPrecision {
    type V = PrecisionView;

    open spec fn view(&self) -> PrecisionView {
        PrecisionView { price_step: self.price_precision@, amount_step: self.amount_precision@ }
    }
}

impl Clone for MarketPrecision {
    fn clone(&self) -> (r: Self)
        ensures
            r@ == self@,
    {
        MarketPrecision {
            price_precision: self.price_precision.clone(),
            amount_precision: self.amount_precision.clone(),
        }
    }
}

/// The decimal that `value` becomes when it is rounded to a multiple of
/// `step`: `value` itself for a step of zero, else the quotient of `value`
/// by `step`, rounded to an integer by `mode`, times `step`.
pub open spec fn rounded_to_step(value: DecimalView, step: DecimalView, mode: RoundingMode)
    -> DecimalView {
    if step.value() == 0real {
        value
    } else {
        decimal_product(decimal_rounded(decimal_quotient(value, step), 0, mode), step)
    }
}

/// The number of steps in `value` rounded to a multiple of `step`.
pub open spec fn step_count(value: DecimalView, step: DecimalView, mode: RoundingMode) -> int {
    round_to_integer(mode, decimal_quotient(value, step).value())
}

/// What is known of `r`, which is `value` rounded to a multiple of `step`.
pub open spec fn is_rounded_to_step(
    r: DecimalView,
    value: DecimalView,
    step: DecimalView,
    mode: RoundingMode,
) -> bool {
    &&& r == rounded_to_step(value, step, mode)
    &&& step.value() == 0real ==> r == value
    &&& step.value() != 0real ==> {
        &&& r.value() == step_count(value, step, mode) as real * step.value()
        &&& (r.scale == step.scale || r.scale == 0)
        &&& decimal_quotient(r, step).value() == step_count(value, step, mode) as real
    }
    &&& value.value() == 0real ==> r.value() == 0real
    &&& value.value() >= 0real && step.value() >= 0real ==> r.value() >= 0real
}

/// Rounding moves no number across zero.
pub proof fn lemma_round_keeps_sign(mode: RoundingMode, x: real)
    ensures
        x == 0real ==> round_to_integer(mode, x) == 0,
        x >= 0real ==> round_to_integer(mode, x) >= 0,
        x <= 0real ==> round_to_integer(mode, x) <= 0,
{
}

/// An integer is rounded to itself.
pub proof fn lemma_round_integer(mode: RoundingMode, k: int)
    ensures
        round_to_integer(mode, k as real) == k,
{
}

/// Rounding what is rounded changes nothing: a value rounded to a multiple
/// of a step, and rounded again to a multiple of the same step in the same
/// mode, stands for the same number as after the first rounding.
pub proof fn lemma_round_idempotent(
    once: DecimalView,
    twice: DecimalView,
    value: DecimalView,
    step: DecimalView,
    mode: RoundingMode,
)
    requires
        is_rounded_to_step(once, value, step, mode),
        is_rounded_to_step(twice, once, step, mode),
    ensures
        twice.value() == once.value(),
{
    if step.value() != 0real {
        lemma_round_integer(mode, step_count(value, step, mode));
    }
}

/// `value` rounded to a multiple of `step` by `mode`.
fn round_to_step(value: &Decimal, step: &Decimal, mode: RoundingMode) -> (r: Decimal)
    requires
        value@.in_range(),
        step@.in_range(),
    ensures
        is_rounded_to_step(r@, value@, step@, mode),
{
    if step.is_zero() {
        return value.clone();
    }
    let divided = value.div(step);
    let floored = divided.with_scale_round(0, mode);
    let r = floored.mul(step);
    proof {
        reveal_with_fuel(pow10, 1);
        let q = divided@.value();
        let k = round_to_integer(mode, q);
        assert(floored@.value() == k as real);
        lemma_round_keeps_sign(mode, q);
        if value@.value() == 0real {
            assert(r@.value() == 0real) by (nonlinear_arith)
                requires
                    r@.value() == (k as real) * step@.value(),
                    k == 0,
            ;
        }
        if value@.value() >= 0real && step@.value() >= 0real {
            assert(q >= 0real) by (nonlinear_arith)
                requires
                    value@.value() >= 0real,
                    step@.value() > 0real,
                    value@.value() == 0real ==> q == 0real,
                    value@.value() * step@.value() > 0real ==> q > 0real,
            ;
            assert(r@.value() >= 0real) by (nonlinear_arith)
                requires
                    r@.value() == (k as real) * step@.value(),
                    k >= 0,
                    step@.value() >= 0real,
            ;
        }
    }
    r
}

impl MarketPrecision {
    /// `value` rounded to a multiple of the price step.
    pub fn round_price(&self, value: &Decimal, mode: RoundingMode) -> (r: Decimal)
        requires
            value@.in_range(),
            self@.price_step.in_range(),
        ensures
            is_rounded_to_step(r@, value@, self@.price_step, mode),
    {
        round_to_step(value, &self.price_precision, mode)
    }

    /// `value` rounded to a multiple of the amount step.
    pub fn round_amount(&self, value: &Decimal, mode: RoundingMode) -> (r: Decimal)
        requires
            value@.in_range(),
            self@.amount_step.in_range(),
        ensures
            is_rounded_to_step(r@, value@, self@.amount_step, mode),
    {
        round_to_step(value, &self.amount_precision, mode)
    }

    /// Whether both steps are fit to be handed to the library and not negative.
    pub fn is_wf(&self) -> (r: bool)
        ensures
            r == self@.wf(),
    {
        self.price_precision.is_input() && self.amount_precision.is_input()
            && !self.price_precision.is_negative() && !self.amount_precision.is_negative()
    }
}

} // verus!
