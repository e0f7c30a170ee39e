use vstd::prelude::*;

verus! {

/// Largest mantissa magnitude that a decimal can hold: 2^96 - 1.
pub const MAX_MANTISSA: i128 = 79228162514264337593543950335;

/// Largest number of digits after the decimal point.
pub const MAX_SCALE: u32 = 28;

/// An exact decimal number: `mantissa / 10^scale`.
///
/// The library keeps rates in this form so that the logic can read them; the
/// arithmetic itself is done by `rust_decimal`.
#[derive(Clone, Copy, Debug, PartialEq, Eq, Structural)]
pub struct Decimal {
    pub mantissa: i128,
    pub scale: u32,
}

/// What `rust_decimal`'s checked division yields for two decimals given as
/// (mantissa, scale) pairs: `None` where it refuses the division.
pub uninterp spec fn decimal_quotient(dividend: (i128, u32), divisor: (i128, u32)) -> Option<(i128, u32)>;

impl Decimal {
    /// The decimal is within the range that `rust_decimal` represents.
    pub open spec fn wf(self) -> bool {
        &&& -MAX_MANTISSA <= self.mantissa <= MAX_MANTISSA
        &&& self.scale <= MAX_SCALE
    }

    pub open spec fn parts(self) -> (i128, u32) {
        (self.mantissa, self.scale)
    }

    pub open spec fn from_parts_spec(p: (i128, u32)) -> Decimal {
        Decimal { mantissa: p.0, scale: p.1 }
    }

    /// The decimal one, as `rust_decimal` writes it (scale zero).
    pub open spec fn one_spec() -> Decimal {
        Decimal { mantissa: 1, scale: 0 }
    }

    pub open spec fn is_zero_spec(self) -> bool {
        self.mantissa == 0
    }

    /// `num / 10^scale`.
    pub fn new(num: i64, scale: u32) -> (r: Decimal)
        requires
            scale <= MAX_SCALE,
        ensures
            r.mantissa == num as i128,
            r.scale == scale,
            r.wf(),
    {
        Decimal { mantissa: num as i128, scale }
    }

    /// Builds a decimal from its parts, or `None` where they are out of range.
    pub fn try_from_parts(mantissa: i128, scale: u32) -> (r: Option<Decimal>)
        ensures
            r matches Some(d) ==> d.mantissa == mantissa && d.scale == scale && d.wf(),
            r is None <==> !(Decimal { mantissa, scale }).wf(),
    {
        if scale <= MAX_SCALE && -MAX_MANTISSA <= mantissa && mantissa <= MAX_MANTISSA {
            Some(Decimal { mantissa, scale })
        } else {
            None
        }
    }

    pub fn one() -> (r: Decimal)
        ensures
            r == Decimal::one_spec(),
            r.wf(),
    {
        Decimal { mantissa: 1, scale: 0 }
    }

    pub fn is_zero(&self) -> (r: bool)
        ensures
            r == self.is_zero_spec(),
    {
        self.mantissa == 0
    }
}

/// The quotient as a decimal, in the terms of `decimal_quotient`.
pub open spec fn quotient(a: Decimal, b: Decimal) -> Option<Decimal> {
    match decimal_quotient(a.parts(), b.parts()) {
        Some(p) => Some(Decimal::from_parts_spec(p)),
        None => None,
    }
}

/// Relies on rust_decimal's `Decimal::try_from_i128_with_scale`, `Decimal::checked_div`,
/// `Decimal::mantissa` and `Decimal::scale`: the division is refused (`None`)
/// when the divisor is zero, and a result is always within range.
#[verifier::external_body]
pub(crate) fn checked_quotient(a: Decimal, b: Decimal) -> (r: Option<Decimal>)
    ensures
        r is None <==> decimal_quotient(a.parts(), b.parts()) is None,
        r matches Some(q) ==> decimal_quotient(a.parts(), b.parts()) == Some(q.parts()),
        b.wf() && b.mantissa == 0 ==> r is None,
        r matches Some(q) ==> q.wf(),
{
    let x = rust_decimal::Decimal::try_from_i128_with_scale(a.mantissa, a.scale).ok()?;
    let y = rust_decimal::Decimal::try_from_i128_with_scale(b.mantissa, b.scale).ok()?;
    let q = x.checked_div(y)?;
    Some(Decimal { mantissa: q.mantissa(), scale: q.scale() })
}

/// The text that `rust_decimal` writes for a decimal given as (mantissa, scale).
pub uninterp spec fn decimal_text(d: (i128, u32)) -> Seq<char>;

/// The decimal, as (mantissa, scale), that `rust_decimal` reads from a text, or
/// `None` where it refuses the text.
pub uninterp spec fn decimal_of_text(t: Seq<char>) -> Option<(i128, u32)>;

/// A character that the text of a decimal may hold: a digit, the point or the sign.
pub open spec fn is_number_char(c: char) -> bool {
    c == '-' || c == '.' || ('0' <= c && c <= '9')
}

/// Relies on rust_decimal's `Display` for `Decimal` (through `to_string`): the text
/// is made of digits, at most a point and a leading minus sign.
#[verifier::external_body]
pub(crate) fn to_text(d: Decimal) -> (r: String)
    requires
        d.wf(),
    ensures
        r@ == decimal_text(d.parts()),
        forall|i: int| 0 <= i < r@.len() ==> is_number_char(#[trigger] r@[i]),
{
    rust_decimal::Decimal::from_i128_with_scale(d.mantissa, d.scale).to_string()
}

/// Relies on rust_decimal's `FromStr` for `Decimal`, `Decimal::mantissa` and
/// `Decimal::scale`: a value that it reads is within range.
#[verifier::external_body]
pub(crate) fn parse_text(t: &str) -> (r: Option<Decimal>)
    ensures
        r is None <==> decimal_of_text(t@) is None,
        r matches Some(q) ==> decimal_of_text(t@) == Some(q.parts()) && q.wf(),
{
    let d = <rust_decimal::Decimal as core::str::FromStr>::from_str(t).ok()?;
    Some(Decimal { mantissa: d.mantissa(), scale: d.scale() })
}

} // verus!
