//! Arbitrary-precision signed decimals.
//!
//! A [`Decimal`] holds an unscaled integer, as two's-complement
//! little-endian bytes, and a scale: it stands for
//! `unscaled * 10^(-scale)`. The arithmetic itself is done by the
//! `bigdecimal` crate; what this module believes of it is written on the
//! functions at the end of the file. Each of them builds its operands with
//! `BigInt::from_signed_bytes_le` and `BigDecimal::new`, makes one call, and
//! takes the result apart with `BigDecimal::into_bigint_and_exponent` and
//! `BigInt::to_signed_bytes_le`: the unscaled integer and the scale pass
//! unchanged in both directions.

use bigdecimal::num_bigint::BigInt;
use bigdecimal::BigDecimal;
use vstd::prelude::*;

verus! {

/// Largest magnitude of a scale that the arithmetic accepts. Sums and
/// differences of two such scales stay inside `i64`.
pub const SCALE_LIMIT: i64 = 0x1000_0000_0000_0000;

/// Largest magnitude of a scale of a quotient that is worked on further.
pub const QUOTIENT_SCALE_LIMIT: i64 = 0x0800_0000_0000_0000;

/// Largest magnitude of a scale of a quantity handed to the library.
pub const INPUT_SCALE_LIMIT: i64 = 0x1_0000_0000;

/// How a value that lies between two neighbours is moved to one of them.
#[derive(Clone, Copy, Debug, PartialEq, Eq, Structural)]
pub enum RoundingMode {
    /// Away from zero.
    Up,
    /// Towards zero.
    Down,
    /// Towards positive infinity.
    Ceiling,
    /// Towards negative infinity.
    Floor,
    /// To the nearest neighbour; a tie goes away from zero.
    HalfUp,
    /// To the nearest neighbour; a tie goes towards zero.
    HalfDown,
    /// To the nearest neighbour; a tie goes to the even one.
    HalfEven,
}

/// The mathematical content of a [`Decimal`]: it stands for
/// `unscaled * 10^(-scale)`.
pub ghost struct DecimalView {
    pub unscaled: int,
    pub scale: int,
}

/// The integer that two's-complement little-endian bytes stand for.
pub open spec fn signed_le(bytes: Seq<u8>) -> int
    decreases bytes.len(),
{
    if bytes.len() == 0 {
        0
    } else if bytes.len() == 1 {
        if bytes[0] >= 128 {
            bytes[0] as int - 256
        } else {
            bytes[0] as int
        }
    } else {
        bytes[0] as int + 256 * signed_le(bytes.drop_first())
    }
}

/// Ten to the power `n`.
pub open spec fn pow10(n: nat) -> real
    decreases n,
{
    if n == 0 {
        1real
    } else {
        10real * pow10((n - 1) as nat)
    }
}

/// `x * 10^k`, for any integer `k`.
pub open spec fn shift10(x: real, k: int) -> real {
    if k >= 0 {
        x * pow10(k as nat)
    } else {
        x / pow10((-k) as nat)
    }
}

impl DecimalView {
    /// The number that the pair stands for.
    pub open spec fn value(self) -> real {
        shift10(self.unscaled as real, -self.scale)
    }

    /// The scale is small enough for any one arithmetic operation.
    pub open spec fn in_range(self) -> bool {
        -SCALE_LIMIT <= self.scale <= SCALE_LIMIT
    }

    /// The scale is small enough for a quantity handed to the library.
    pub open spec fn is_input(self) -> bool {
        -INPUT_SCALE_LIMIT <= self.scale <= INPUT_SCALE_LIMIT
    }

    /// The scale is small enough for a quotient that is worked on further.
    pub open spec fn is_moderate(self) -> bool {
        -QUOTIENT_SCALE_LIMIT <= self.scale <= QUOTIENT_SCALE_LIMIT
    }

    /// The scale lies within `k` input limits.
    pub open spec fn within(self, k: int) -> bool {
        -k * INPUT_SCALE_LIMIT <= self.scale <= k * INPUT_SCALE_LIMIT
    }
}

/// One half.
pub open spec fn half() -> real {
    1real / 2real
}

/// The least integer that is not below `x`.
pub open spec fn ceiling(x: real) -> int {
    -((-x).floor())
}

/// The integer next to `x` that `mode` picks.
pub open spec fn round_to_integer(mode: RoundingMode, x: real) -> int {
    let below = x.floor();
    let above = ceiling(x);
    let towards_zero = if x >= 0real { below } else { above };
    let away_from_zero = if x >= 0real { above } else { below };
    let gap = x - below as real;
    match mode {
        RoundingMode::Up => away_from_zero,
        RoundingMode::Down => towards_zero,
        RoundingMode::Ceiling => above,
        RoundingMode::Floor => below,
        RoundingMode::HalfUp => if gap < half() {
            below
        } else if gap > half() {
            above
        } else {
            away_from_zero
        },
        RoundingMode::HalfDown => if gap < half() {
            below
        } else if gap > half() {
            above
        } else {
            towards_zero
        },
        RoundingMode::HalfEven => if gap < half() {
            below
        } else if gap > half() {
            above
        } else if below % 2 == 0 {
            below
        } else {
            above
        },
    }
}

/// `x` moved by `mode` to a multiple of `10^(-scale)`.
pub open spec fn rounded_value(x: real, scale: int, mode: RoundingMode) -> real {
    shift10(round_to_integer(mode, shift10(x, scale)) as real, -scale)
}

/// The representation that the sum of two decimals gets.
pub uninterp spec fn decimal_sum(a: DecimalView, b: DecimalView) -> DecimalView;

/// The representation that the difference of two decimals gets.
pub uninterp spec fn decimal_difference(a: DecimalView, b: DecimalView) -> DecimalView;

/// The representation that the product of two decimals gets.
pub uninterp spec fn decimal_product(a: DecimalView, b: DecimalView) -> DecimalView;

/// The quotient of two decimals: the exact quotient where it is a decimal of
/// few enough digits, else a decimal near it, cut at a fixed number of
/// significant digits.
pub uninterp spec fn decimal_quotient(a: DecimalView, b: DecimalView) -> DecimalView;

/// The representation that a decimal gets when it is rounded to `scale`.
pub uninterp spec fn decimal_rounded(a: DecimalView, scale: int, mode: RoundingMode) -> DecimalView;

/// The decimal that a text stands for, if it is the text of one.
pub uninterp spec fn parsed_decimal(text: Seq<char>) -> Option<DecimalView>;

/// What is known of a sum `r` of `a` and `b`.
pub open spec fn is_sum(r: DecimalView, a: DecimalView, b: DecimalView) -> bool {
    &&& r == decimal_sum(a, b)
    &&& r.value() == a.value() + b.value()
    &&& (r.scale == a.scale || r.scale == b.scale)
}

/// What is known of a difference `r` of `a` and `b`.
pub open spec fn is_difference(r: DecimalView, a: DecimalView, b: DecimalView) -> bool {
    &&& r == decimal_difference(a, b)
    &&& r.value() == a.value() - b.value()
    &&& (r.scale == a.scale || r.scale == b.scale)
}

/// What is known of a product `r` of `a` and `b`.
pub open spec fn is_product(r: DecimalView, a: DecimalView, b: DecimalView) -> bool {
    &&& r == decimal_product(a, b)
    &&& r.value() == a.value() * b.value()
    &&& (r.scale == a.scale + b.scale || r.scale == a.scale || r.scale == b.scale)
    &&& (a.scale == 0 && b.value() != 0real ==> decimal_quotient(r, b).value() == a.value())
}

/// What is known of a quotient `r` of `a` by `b`.
pub open spec fn is_quotient(r: DecimalView, a: DecimalView, b: DecimalView) -> bool {
    &&& r == decimal_quotient(a, b)
    &&& (a.value() == 0real ==> r.value() == 0real)
    &&& (a.value() * b.value() > 0real ==> r.value() > 0real)
    &&& (a.value() * b.value() < 0real ==> r.value() < 0real)
    &&& (r.scale >= a.scale - b.scale || r.scale >= a.scale)
}

/// What is known of `r`, which is `a` rounded to `scale`.
pub open spec fn is_rounded(r: DecimalView, a: DecimalView, scale: int, mode: RoundingMode) -> bool {
    &&& r == decimal_rounded(a, scale, mode)
    &&& r.value() == rounded_value(a.value(), scale, mode)
    &&& r.scale == scale
}

/// An arbitrary-precision signed decimal.
#[derive(Debug)]
pub struct Decimal {
    bytes: Vec<u8>,
    scale: i64,
}

impl View for Decimal {
    type V = DecimalView;

    closed spec fn view(&self) -> DecimalView {
        DecimalView { unscaled: signed_le(self.bytes@), scale: self.scale as int }
    }
}

impl Clone for Decimal {
    fn clone(&self) -> (r: Self)
        ensures
            r@ == self@,
    {
        Decimal { bytes: self.bytes.clone(), scale: self.scale }
    }
}

/// Every power of ten is positive.
pub proof fn lemma_pow10_positive(n: nat)
    ensures
        pow10(n) > 0real,
    decreases n,
{
    if n > 0 {
        lemma_pow10_positive((n - 1) as nat);
        assert(10real * pow10((n - 1) as nat) > 0real) by (nonlinear_arith)
            requires
                pow10((n - 1) as nat) > 0real,
        ;
    }
}

/// A decimal stands for zero exactly when its unscaled integer is zero, and
/// its sign is that of the unscaled integer.
pub proof fn lemma_value_sign(v: DecimalView)
    ensures
        v.value() == 0real <==> v.unscaled == 0,
        v.value() > 0real <==> v.unscaled > 0,
        v.value() < 0real <==> v.unscaled < 0,
{
    let x = v.unscaled as real;
    if -v.scale >= 0 {
        let p = pow10((-v.scale) as nat);
        lemma_pow10_positive((-v.scale) as nat);
        assert((x * p == 0real <==> x == 0real) && (x * p > 0real <==> x > 0real) && (x * p
            < 0real <==> x < 0real)) by (nonlinear_arith)
            requires
                p > 0real,
        ;
    } else {
        let p = pow10(v.scale as nat);
        lemma_pow10_positive(v.scale as nat);
        assert((x / p == 0real <==> x == 0real) && (x / p > 0real <==> x > 0real) && (x / p
            < 0real <==> x < 0real)) by (nonlinear_arith)
            requires
                p > 0real,
        ;
    }
}

impl Decimal {
    /// The number that the decimal stands for.
    pub open spec fn value(&self) -> real {
        self@.value()
    }

    /// The decimal of the given parts: the unscaled integer as
    /// two's-complement little-endian bytes, and the scale.
    pub fn from_parts(bytes: Vec<u8>, scale: i64) -> (r: Decimal)
        ensures
            r@ == (DecimalView { unscaled: signed_le(bytes@), scale: scale as int }),
            r.bytes_view() == bytes@,
    {
        Decimal { bytes, scale }
    }

    /// The bytes of the unscaled integer, as `bytes` returns them.
    pub closed spec fn bytes_view(&self) -> Seq<u8> {
        self.bytes@
    }

    /// The unscaled integer as two's-complement little-endian bytes.
    pub fn bytes(&self) -> (r: &Vec<u8>)
        ensures
            r@ == self.bytes_view(),
            signed_le(r@) == self@.unscaled,
    {
        &self.bytes
    }

    /// The scale: the number of decimal places.
    pub fn scale(&self) -> (r: i64)
        ensures
            r == self@.scale,
    {
        self.scale
    }

    /// Whether the scale is small enough for any one arithmetic operation.
    pub fn in_range(&self) -> (r: bool)
        ensures
            r == self@.in_range(),
    {
        -SCALE_LIMIT <= self.scale && self.scale <= SCALE_LIMIT
    }

    /// Whether the scale is small enough for a quotient that is worked on
    /// further.
    pub fn is_moderate(&self) -> (r: bool)
        ensures
            r == self@.is_moderate(),
    {
        -QUOTIENT_SCALE_LIMIT <= self.scale && self.scale <= QUOTIENT_SCALE_LIMIT
    }

    /// Whether the scale is small enough for a quantity handed to the library.
    pub fn is_input(&self) -> (r: bool)
        ensures
            r == self@.is_input(),
    {
        -INPUT_SCALE_LIMIT <= self.scale && self.scale <= INPUT_SCALE_LIMIT
    }

    /// The integer `n` as a decimal.
    pub fn from_i64(n: i64) -> (r: Decimal)
        ensures
            r@ == (DecimalView { unscaled: n as int, scale: 0 }),
            r.value() == n as real,
    {
        let r = big_from_i64(n);
        proof {
            reveal_with_fuel(pow10, 1);
        }
        r
    }

    /// Zero.
    pub fn zero() -> (r: Decimal)
        ensures
            r@ == (DecimalView { unscaled: 0, scale: 0 }),
            r.value() == 0real,
    {
        Decimal::from_i64(0)
    }

    /// The sum of two decimals.
    pub fn add(&self, rhs: &Decimal) -> (r: Decimal)
        requires
            self@.in_range(),
            rhs@.in_range(),
        ensures
            is_sum(r@, self@, rhs@),
    {
        big_add(self, rhs)
    }

    /// The difference of two decimals.
    pub fn sub(&self, rhs: &Decimal) -> (r: Decimal)
        requires
            self@.in_range(),
            rhs@.in_range(),
        ensures
            is_difference(r@, self@, rhs@),
    {
        big_sub(self, rhs)
    }

    /// The product of two decimals.
    pub fn mul(&self, rhs: &Decimal) -> (r: Decimal)
        requires
            self@.in_range(),
            rhs@.in_range(),
        ensures
            is_product(r@, self@, rhs@),
    {
        big_mul(self, rhs)
    }

    /// The quotient of two decimals, the divisor not zero.
    pub fn div(&self, rhs: &Decimal) -> (r: Decimal)
        requires
            self@.in_range(),
            rhs@.in_range(),
            rhs.value() != 0real,
        ensures
            is_quotient(r@, self@, rhs@),
    {
        proof {
            lemma_value_sign(rhs@);
        }
        big_div(self, rhs)
    }

    /// The decimal rounded to `scale` decimal places.
    pub fn with_scale_round(&self, scale: i64, mode: RoundingMode) -> (r: Decimal)
        requires
            self@.scale >= -2 * SCALE_LIMIT,
            0 <= scale <= SCALE_LIMIT,
        ensures
            is_rounded(r@, self@, scale as int, mode),
    {
        big_round(self, scale, mode)
    }

    /// Whether `self` is below `rhs`.
    pub fn lt(&self, rhs: &Decimal) -> (r: bool)
        ensures
            r == (self.value() < rhs.value()),
    {
        big_lt(self, rhs)
    }

    /// Whether `self` is above `rhs`.
    pub fn gt(&self, rhs: &Decimal) -> (r: bool)
        ensures
            r == (self.value() > rhs.value()),
    {
        big_lt(rhs, self)
    }

    /// Whether `self` is not above `rhs`.
    pub fn le(&self, rhs: &Decimal) -> (r: bool)
        ensures
            r == (self.value() <= rhs.value()),
    {
        !big_lt(rhs, self)
    }

    /// Whether `self` is not below `rhs`.
    pub fn ge(&self, rhs: &Decimal) -> (r: bool)
        ensures
            r == (self.value() >= rhs.value()),
    {
        !big_lt(self, rhs)
    }

    /// Whether the two decimals stand for the same number.
    pub fn equals(&self, rhs: &Decimal) -> (r: bool)
        ensures
            r == (self.value() == rhs.value()),
    {
        !big_lt(self, rhs) && !big_lt(rhs, self)
    }

    /// Whether the decimal stands for zero.
    pub fn is_zero(&self) -> (r: bool)
        ensures
            r == (self.value() == 0real),
    {
        let zero = Decimal::zero();
        self.equals(&zero)
    }

    /// Whether the decimal is above zero.
    pub fn is_positive(&self) -> (r: bool)
        ensures
            r == (self.value() > 0real),
    {
        let zero = Decimal::zero();
        self.gt(&zero)
    }

    /// Whether the decimal is below zero.
    pub fn is_negative(&self) -> (r: bool)
        ensures
            r == (self.value() < 0real),
    {
        let zero = Decimal::zero();
        self.lt(&zero)
    }

    /// The decimal that `text` stands for, if it is the text of one.
    pub fn parse(text: &str) -> (r: Option<Decimal>)
        ensures
            match r {
                Some(d) => parsed_decimal(text@) == Some(d@),
                None => parsed_decimal(text@).is_none(),
            },
    {
        big_parse(text)
    }
}

/// `BigDecimal`'s `+` on two owned values. The sum is exact, and its scale
/// is that of one of the operands (the larger). The crate aligns the
/// operands by the difference of their scales, which scales in range keep
/// inside `i64`.
#[verifier::external_body]
fn big_add(a: &Decimal, b: &Decimal) -> (r: Decimal)
    requires
        a@.in_range(),
        b@.in_range(),
    ensures
        r@ == decimal_sum(a@, b@),
        is_sum(r@, a@, b@),
{
    let x = BigDecimal::new(BigInt::from_signed_bytes_le(&a.bytes), a.scale);
    let y = BigDecimal::new(BigInt::from_signed_bytes_le(&b.bytes), b.scale);
    let (n, scale) = (x + y).into_bigint_and_exponent();
    Decimal { bytes: n.to_signed_bytes_le(), scale }
}

/// `BigDecimal`'s `-` on two owned values. The difference is exact, and
/// its scale is that of one of the operands. The crate aligns the operands
/// by the difference of their scales, which scales in range keep inside
/// `i64`.
#[verifier::external_body]
fn big_sub(a: &Decimal, b: &Decimal) -> (r: Decimal)
    requires
        a@.in_range(),
        b@.in_range(),
    ensures
        r@ == decimal_difference(a@, b@),
        is_difference(r@, a@, b@),
{
    let x = BigDecimal::new(BigInt::from_signed_bytes_le(&a.bytes), a.scale);
    let y = BigDecimal::new(BigInt::from_signed_bytes_le(&b.bytes), b.scale);
    let (n, scale) = (x - y).into_bigint_and_exponent();
    Decimal { bytes: n.to_signed_bytes_le(), scale }
}

/// `BigDecimal`'s `*` on two owned values. The product is exact; its scale
/// is the sum of the operands' scales, which scales in range keep inside
/// `i64`, or the scale of one operand where the other is one.
/// The product of a whole number of scale zero and a second factor is
/// written so that `/` by the second factor ends without a remainder at
/// its first step, and so gives the whole number back.
#[verifier::external_body]
fn big_mul(a: &Decimal, b: &Decimal) -> (r: Decimal)
    requires
        a@.in_range(),
        b@.in_range(),
    ensures
        r@ == decimal_product(a@, b@),
        is_product(r@, a@, b@),
{
    let x = BigDecimal::new(BigInt::from_signed_bytes_le(&a.bytes), a.scale);
    let y = BigDecimal::new(BigInt::from_signed_bytes_le(&b.bytes), b.scale);
    let (n, scale) = (x * y).into_bigint_and_exponent();
    Decimal { bytes: n.to_signed_bytes_le(), scale }
}

/// `BigDecimal`'s `/` on two owned values, which panics on a zero divisor.
/// The quotient is cut at a number of significant digits that the crate
/// fixes when it is built, so its digits are only named. Besides: it is
/// zero where the dividend is, else it has the sign of the exact quotient;
/// and the crate starts from the difference of the operands' scales, or
/// hands back the dividend with its own scale, and only ever adds decimal
/// places.
#[verifier::external_body]
fn big_div(a: &Decimal, b: &Decimal) -> (r: Decimal)
    requires
        a@.in_range(),
        b@.in_range(),
        b@.unscaled != 0,
    ensures
        r@ == decimal_quotient(a@, b@),
        is_quotient(r@, a@, b@),
{
    let x = BigDecimal::new(BigInt::from_signed_bytes_le(&a.bytes), a.scale);
    let y = BigDecimal::new(BigInt::from_signed_bytes_le(&b.bytes), b.scale);
    let (n, scale) = (x / y).into_bigint_and_exponent();
    Decimal { bytes: n.to_signed_bytes_le(), scale }
}

/// `BigDecimal::with_scale_round`. The result has the scale asked for and
/// is the multiple of `10^(-scale)` that the mode picks next to the value:
/// the value itself where it is such a multiple. The crate takes the
/// difference of the two scales, which the bounds keep inside `i64`.
#[verifier::external_body]
fn big_round(a: &Decimal, scale: i64, mode: RoundingMode) -> (r: Decimal)
    requires
        a@.scale >= -2 * SCALE_LIMIT,
        0 <= scale <= SCALE_LIMIT,
    ensures
        r@ == decimal_rounded(a@, scale as int, mode),
        is_rounded(r@, a@, scale as int, mode),
{
    let x = BigDecimal::new(BigInt::from_signed_bytes_le(&a.bytes), a.scale);
    let m = match mode {
        RoundingMode::Up => bigdecimal::RoundingMode::Up,
        RoundingMode::Down => bigdecimal::RoundingMode::Down,
        RoundingMode::Ceiling => bigdecimal::RoundingMode::Ceiling,
        RoundingMode::Floor => bigdecimal::RoundingMode::Floor,
        RoundingMode::HalfUp => bigdecimal::RoundingMode::HalfUp,
        RoundingMode::HalfDown => bigdecimal::RoundingMode::HalfDown,
        RoundingMode::HalfEven => bigdecimal::RoundingMode::HalfEven,
    };
    let (n, scale) = x.with_scale_round(scale, m).into_bigint_and_exponent();
    Decimal { bytes: n.to_signed_bytes_le(), scale }
}

/// `BigDecimal`'s `<`, which orders decimals by the numbers they stand
/// for, whatever their scales.
#[verifier::external_body]
fn big_lt(a: &Decimal, b: &Decimal) -> (r: bool)
    ensures
        r == (a@.value() < b@.value()),
{
    let x = BigDecimal::new(BigInt::from_signed_bytes_le(&a.bytes), a.scale);
    let y = BigDecimal::new(BigInt::from_signed_bytes_le(&b.bytes), b.scale);
    x < y
}

/// `BigDecimal::from` on an `i64`: the integer itself, at scale zero.
#[verifier::external_body]
fn big_from_i64(n: i64) -> (r: Decimal)
    ensures
        r@ == (DecimalView { unscaled: n as int, scale: 0 }),
{
    let (n, scale) = BigDecimal::from(n).into_bigint_and_exponent();
    Decimal { bytes: n.to_signed_bytes_le(), scale }
}

/// `BigDecimal::from_str`. Which texts are decimals, and which decimal each
/// is, depends on the text alone.
#[verifier::external_body]
fn big_parse(text: &str) -> (r: Option<Decimal>)
    ensures
        match r {
            Some(d) => parsed_decimal(text@) == Some(d@),
            None => parsed_decimal(text@).is_none(),
        },
{
    match <BigDecimal as std::str::FromStr>::from_str(text) {
        Ok(x) => {
            let (n, scale) = x.into_bigint_and_exponent();
            Some(Decimal { bytes: n.to_signed_bytes_le(), scale })
        },
        Err(_) => None,
    }
}

} // verus!
