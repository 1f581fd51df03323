//! Decimal numbers as plain values, and the few operations on them that the
//! budget amounts need, each made by `rust_decimal`.
use vstd::prelude::*;

use rust_decimal::Decimal;

use crate::text::decimal;

verus! {

#[verifier::external_type_specification]
#[verifier::external_body]
pub struct ExDecimal(Decimal);

/// The largest magnitude of a decimal's mantissa: 2^96 - 1.
pub open spec fn max_mantissa() -> int {
    79228162514264337593543950335
}

/// The largest scale a decimal can have.
pub open spec fn max_scale() -> nat {
    28
}

/// A decimal number: `mantissa / 10^scale`.
#[derive(Clone, Copy, Debug, PartialEq, Eq)]
pub struct DecimalValue {
    pub mantissa: i128,
    pub scale: u32,
}

impl DecimalValue {
    /// The values a `rust_decimal::Decimal` can hold.
    pub open spec fn valid(self) -> bool {
        &&& self.scale <= max_scale()
        &&& -max_mantissa() <= self.mantissa <= max_mantissa()
    }

    /// The mantissa and scale as a pair.
    pub open spec fn parts(self) -> (i128, u32) {
        (self.mantissa, self.scale)
    }
}

/// The parts of an optional decimal.
pub open spec fn opt_parts(d: Option<DecimalValue>) -> Option<(i128, u32)> {
    match d {
        Some(v) => Some(v.parts()),
        None => None,
    }
}

/// What `Decimal::from_str` makes of a text, as mantissa and scale.
pub uninterp spec fn parsed_decimal(text: Seq<char>) -> Option<(i128, u32)>;

/// What `Decimal::checked_mul` gives for two decimals, as mantissa and scale.
pub uninterp spec fn decimal_product(
    a_mantissa: i128,
    a_scale: u32,
    b_mantissa: i128,
    b_scale: u32,
) -> Option<(i128, u32)>;

/// What `Decimal::checked_div` gives for two decimals, as mantissa and scale.
pub uninterp spec fn decimal_quotient(
    a_mantissa: i128,
    a_scale: u32,
    b_mantissa: i128,
    b_scale: u32,
) -> Option<(i128, u32)>;

/// A decimal with its trailing fractional zeros removed, and zero as `0`
/// with scale 0.
pub open spec fn normalized(mantissa: int, scale: nat) -> (int, nat)
    decreases scale,
{
    if mantissa == 0 {
        (0, 0)
    } else if scale > 0 && mantissa % 10 == 0 {
        normalized(mantissa / 10, (scale - 1) as nat)
    } else {
        (mantissa, scale)
    }
}

/// `s` with zeros put in front until it is `n` long.
pub open spec fn zero_padded(s: Seq<char>, n: nat) -> Seq<char> {
    if s.len() >= n {
        s
    } else {
        Seq::new((n - s.len()) as nat, |i: int| '0') + s
    }
}

/// The text of a non-negative decimal: its digits with a point before the
/// last `scale` of them, and a `0` before the point where no digit is left
/// there.
pub open spec fn unsigned_decimal_text(magnitude: nat, scale: nat) -> Seq<char> {
    if scale == 0 {
        decimal(magnitude)
    } else {
        let digits = zero_padded(decimal(magnitude), scale);
        let whole = digits.take(digits.len() - scale);
        (if whole.len() == 0 {
            seq!['0']
        } else {
            whole
        }) + seq!['.'] + digits.skip(digits.len() - scale)
    }
}

/// The absolute value of an integer.
pub open spec fn magnitude(m: int) -> nat {
    if m < 0 {
        (-m) as nat
    } else {
        m as nat
    }
}

/// The text `Display` gives a decimal: a minus sign for a negative mantissa,
/// then the unsigned text.
pub open spec fn decimal_text(mantissa: int, scale: nat) -> Seq<char> {
    (if mantissa < 0 {
        seq!['-']
    } else {
        Seq::empty()
    }) + unsigned_decimal_text(magnitude(mantissa), scale)
}

/// `Decimal::from_str` (`str::parse`). Claimed: the result is what the name
/// `parsed_decimal` gives for the text, and a decimal it returns has a scale
/// of at most 28 and a mantissa of at most 96 bits, as every `Decimal` does.
#[verifier::external_body]
pub(crate) fn parse_decimal(text: &str) -> (r: Option<DecimalValue>)
    ensures
        opt_parts(r) == parsed_decimal(text@),
        r matches Some(d) ==> d.valid(),
{
    match text.parse::<Decimal>() {
        Ok(d) => Some(DecimalValue { mantissa: d.mantissa(), scale: d.scale() }),
        Err(_) => None,
    }
}

/// `Decimal::checked_mul`. Claimed: the result is what the name
/// `decimal_product` gives for the two decimals; it is valid; a zero factor
/// gives zero; and where the exact product fits in 96 bits and the scales
/// add up to at most 28, the result is that exact product. Where the product
/// does not fit, the crate rounds it to a smaller scale or gives `None`; that
/// is left to the name.
#[verifier::external_body]
pub(crate) fn checked_mul(a: DecimalValue, b: DecimalValue) -> (r: Option<DecimalValue>)
    requires
        a.valid(),
        b.valid(),
    ensures
        opt_parts(r) == decimal_product(a.mantissa, a.scale, b.mantissa, b.scale),
        r matches Some(d) ==> d.valid(),
        a.mantissa == 0 || b.mantissa == 0 ==> r == Some(DecimalValue { mantissa: 0, scale: 0 }),
        a.mantissa != 0 && b.mantissa != 0 && a.scale + b.scale <= max_scale() && -max_mantissa()
            <= a.mantissa * b.mantissa <= max_mantissa() ==> r == Some(
            DecimalValue {
                mantissa: (a.mantissa * b.mantissa) as i128,
                scale: (a.scale + b.scale) as u32,
            },
        ),
{
    let x = Decimal::from_i128_with_scale(a.mantissa, a.scale);
    let y = Decimal::from_i128_with_scale(b.mantissa, b.scale);
    match x.checked_mul(y) {
        Some(d) => Some(DecimalValue { mantissa: d.mantissa(), scale: d.scale() }),
        None => None,
    }
}

/// `Decimal::checked_div`. Claimed: the result is what the name
/// `decimal_quotient` gives for the two decimals; it is valid; a zero
/// divisor gives `None`; a zero dividend over a non-zero divisor gives zero
/// at scale 0; dividing by twelve (mantissa 12, scale 0) always
/// succeeds, since the quotient is smaller than the dividend and the scale
/// starts at the dividend's; and where twelve divides a non-zero mantissa,
/// the quotient is that exact mantissa over twelve at the dividend's scale.
/// How an inexact quotient is rounded is left to the name.
#[verifier::external_body]
pub(crate) fn checked_div(a: DecimalValue, b: DecimalValue) -> (r: Option<DecimalValue>)
    requires
        a.valid(),
        b.valid(),
    ensures
        opt_parts(r) == decimal_quotient(a.mantissa, a.scale, b.mantissa, b.scale),
        r matches Some(d) ==> d.valid(),
        b.mantissa == 0 ==> r is None,
        b.mantissa == 12 && b.scale == 0 ==> r is Some,
        a.mantissa == 0 && b.mantissa != 0 ==> r == Some(DecimalValue { mantissa: 0, scale: 0 }),
        a.mantissa != 0 && b.mantissa == 12 && b.scale == 0 && a.mantissa % 12 == 0 ==> r == Some(
            DecimalValue { mantissa: (a.mantissa / 12) as i128, scale: a.scale },
        ),
{
    let x = Decimal::from_i128_with_scale(a.mantissa, a.scale);
    let y = Decimal::from_i128_with_scale(b.mantissa, b.scale);
    match x.checked_div(y) {
        Some(d) => Some(DecimalValue { mantissa: d.mantissa(), scale: d.scale() }),
        None => None,
    }
}

/// `Decimal::normalize`. Claimed: trailing fractional zeros are removed and
/// zero becomes `0` with scale 0, as `normalized` states.
#[verifier::external_body]
pub(crate) fn normalize(d: DecimalValue) -> (r: DecimalValue)
    requires
        d.valid(),
    ensures
        r.valid(),
        (r.mantissa as int, r.scale as nat) == normalized(d.mantissa as int, d.scale as nat),
{
    let n = Decimal::from_i128_with_scale(d.mantissa, d.scale).normalize();
    DecimalValue { mantissa: n.mantissa(), scale: n.scale() }
}

/// `Decimal`'s `Display` (`to_string`). Claimed: the text is the one
/// `decimal_text` states.
#[verifier::external_body]
pub(crate) fn display(d: DecimalValue) -> (r: String)
    requires
        d.valid(),
    ensures
        r@ == decimal_text(d.mantissa as int, d.scale as nat),
{
    Decimal::from_i128_with_scale(d.mantissa, d.scale).to_string()
}

/// Ten to the power `n`.
pub open spec fn pow10(n: nat) -> int
    decreases n,
{
    if n == 0 {
        1
    } else {
        10 * pow10((n - 1) as nat)
    }
}

/// Whether one decimal's value is larger than another's.
pub open spec fn value_greater(a: DecimalValue, b: DecimalValue) -> bool {
    a.mantissa * pow10(b.scale as nat) > b.mantissa * pow10(a.scale as nat)
}

/// `Decimal`'s `>` (`PartialOrd`). Claimed: it compares the values, so the
/// first is larger exactly where `mantissa_a · 10^scale_b` exceeds
/// `mantissa_b · 10^scale_a`.
#[verifier::external_body]
pub(crate) fn decimal_gt(a: DecimalValue, b: DecimalValue) -> (r: bool)
    requires
        a.valid(),
        b.valid(),
    ensures
        r == value_greater(a, b),
{
    Decimal::from_i128_with_scale(a.mantissa, a.scale) > Decimal::from_i128_with_scale(
        b.mantissa,
        b.scale,
    )
}

} // verus!
