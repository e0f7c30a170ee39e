use vstd::prelude::*;

use crate::config::Config;
use crate::decimal::{checked_quotient, quotient, Decimal};
use crate::errors::CurrencyError;

verus! {

/// Conversion rate from a currency to another.
#[derive(Clone, Debug, PartialEq, Eq)]
pub struct ConversionRate {
    pub from: String,
    pub to: String,
    pub rate: Decimal,
}

/// The result of resolving a pair of currencies against stored rates.
pub enum Resolution {
    Rate(Decimal),
    NotFound(Seq<char>),
    Invalid,
}

/// Rate of the first stored entry whose target currency is `code`.
pub open spec fn lookup_rate(rates: Seq<ConversionRate>, code: Seq<char>) -> Option<Decimal>
    decreases rates.len(),
{
    if rates.len() == 0 {
        None
    } else if rates[0].to@ == code {
        Some(rates[0].rate)
    } else {
        lookup_rate(rates.drop_first(), code)
    }
}

/// Rate from the base currency to `code`.
pub open spec fn from_base(rates: Seq<ConversionRate>, code: Seq<char>) -> Resolution {
    match lookup_rate(rates, code) {
        Some(r) => Resolution::Rate(r),
        None => Resolution::NotFound(code),
    }
}

/// Rate from `code` to the base currency: the inverse of the stored one.
pub open spec fn to_base(rates: Seq<ConversionRate>, code: Seq<char>) -> Resolution {
    match lookup_rate(rates, code) {
        Some(r) => match quotient(Decimal::one_spec(), r) {
            Some(q) => Resolution::Rate(q),
            None => Resolution::Invalid,
        },
        None => Resolution::NotFound(code),
    }
}

/// Rate from `from` to `to` given rates relative to `base`: stored rates are
/// read directly, inverted, or combined through the base currency.
pub open spec fn resolve_spec(
    rates: Seq<ConversionRate>,
    base: Seq<char>,
    from: Seq<char>,
    to: Seq<char>,
) -> Resolution {
    if to == base {
        to_base(rates, from)
    } else if from == base {
        from_base(rates, to)
    } else {
        match from_base(rates, from) {
            Resolution::Rate(rate_from) => match from_base(rates, to) {
                Resolution::Rate(rate_to) => match quotient(rate_to, rate_from) {
                    Some(q) => Resolution::Rate(q),
                    None => Resolution::Invalid,
                },
                other => other,
            },
            other => other,
        }
    }
}

/// The result of a call agrees with a resolution.
pub open spec fn agrees(
    r: Result<ConversionRate, CurrencyError>,
    expected: Resolution,
    from: Seq<char>,
    to: Seq<char>,
) -> bool {
    match expected {
        Resolution::Rate(q) => r matches Ok(c) && c.from@ == from && c.to@ == to && c.rate == q,
        Resolution::NotFound(code) => r matches Err(CurrencyError::RateNotFound { code: c })
            && c@ == code,
        Resolution::Invalid => r matches Err(CurrencyError::RateComputation),
    }
}

/// The resolution of a quotient of two rates.
pub open spec fn quotient_resolution(a: Decimal, b: Decimal) -> Resolution {
    match quotient(a, b) {
        Some(q) => Resolution::Rate(q),
        None => Resolution::Invalid,
    }
}

/// Inverse consistency: where the base currency is never the target of a stored
/// rate, the rate from `x` to the base is one divided by the rate from the base to
/// `x`, and both fail alike when `x` has no stored rate.
pub proof fn lemma_inverse_consistency(rates: Seq<ConversionRate>, base: Seq<char>, x: Seq<char>)
    requires
        forall|i: int| 0 <= i < rates.len() ==> rates[i].to@ != base,
    ensures
        match resolve_spec(rates, base, base, x) {
            Resolution::Rate(r) => resolve_spec(rates, base, x, base) == quotient_resolution(
                Decimal::one_spec(),
                r,
            ),
            Resolution::NotFound(c) => resolve_spec(rates, base, x, base) == Resolution::NotFound(
                c,
            ),
            Resolution::Invalid => false,
        },
{
    if x == base {
        lemma_lookup_absent(rates, base);
    }
}

/// A code that no stored rate targets has no rate.
pub proof fn lemma_lookup_absent(rates: Seq<ConversionRate>, code: Seq<char>)
    requires
        forall|i: int| 0 <= i < rates.len() ==> rates[i].to@ != code,
    ensures
        lookup_rate(rates, code) is None,
    decreases rates.len(),
{
    if rates.len() > 0 {
        assert(rates[0].to@ != code);
        assert forall|i: int| 0 <= i < rates.drop_first().len() implies rates.drop_first()[i].to@
            != code by {
            assert(rates.drop_first()[i] == rates[i + 1]);
        }
        lemma_lookup_absent(rates.drop_first(), code);
    }
}

/// Triangulation: between two currencies other than the base, the rate is the rate
/// from the base to `y` divided by the rate from the base to `x`; a currency without
/// a stored rate is reported, `x` before `y`.
pub proof fn lemma_triangulation(
    rates: Seq<ConversionRate>,
    base: Seq<char>,
    x: Seq<char>,
    y: Seq<char>,
)
    requires
        x != base,
        y != base,
    ensures
        match (resolve_spec(rates, base, base, x), resolve_spec(rates, base, base, y)) {
            (Resolution::Rate(rx), Resolution::Rate(ry)) => resolve_spec(rates, base, x, y)
                == quotient_resolution(ry, rx),
            (Resolution::NotFound(c), _) => resolve_spec(rates, base, x, y)
                == Resolution::NotFound(c),
            (Resolution::Rate(_), Resolution::NotFound(c)) => resolve_spec(rates, base, x, y)
                == Resolution::NotFound(c),
            _ => false,
        },
{
}

/// Rate of the first entry of `rates` whose target currency is `code`.
pub fn find_rate(rates: &Vec<ConversionRate>, code: &String) -> (r: Option<Decimal>)
    ensures
        r == lookup_rate(rates@, code@),
{
    let mut i: usize = 0;
    assert(rates@.subrange(0, rates@.len() as int) =~= rates@);
    while i < rates.len()
        invariant
            i <= rates@.len(),
            lookup_rate(rates@, code@) == lookup_rate(
                rates@.subrange(i as int, rates@.len() as int),
                code@,
            ),
        decreases rates.len() - i,
    {
        let ghost rest = rates@.subrange(i as int, rates@.len() as int);
        if rates[i].to == *code {
            return Some(rates[i].rate);
        }
        assert(rest.drop_first() =~= rates@.subrange(i + 1, rates@.len() as int));
        i = i + 1;
    }
    None
}

fn rate_from_base(rates: &Vec<ConversionRate>, code: &String) -> (r: Result<Decimal, CurrencyError>)
    ensures
        match from_base(rates@, code@) {
            Resolution::Rate(q) => r == Ok::<Decimal, CurrencyError>(q),
            Resolution::NotFound(c) => r matches Err(CurrencyError::RateNotFound { code: e })
                && e@ == c,
            Resolution::Invalid => false,
        },
{
    match find_rate(rates, code) {
        Some(rate) => Ok(rate),
        None => Err(CurrencyError::RateNotFound { code: code.clone() }),
    }
}

/// Resolves the rate from `from` to `to` over rates that are all relative to `base`.
///
/// Going to the base inverts the stored rate of `from`; going from the base reads
/// the stored rate of `to`; between two other currencies the rate is the quotient of
/// their rates from the base.
pub fn resolve_rate(rates: &Vec<ConversionRate>, base: &str, from: &str, to: &str) -> (r: Result<
    ConversionRate,
    CurrencyError,
>)
    ensures
        agrees(r, resolve_spec(rates@, base@, from@, to@), from@, to@),
{
    let base_code = base.to_owned();
    let from_code = from.to_owned();
    let to_code = to.to_owned();
    if to_code == base_code {
        let stored = rate_from_base(rates, &from_code)?;
        match checked_quotient(Decimal::one(), stored) {
            Some(q) => Ok(ConversionRate { from: from_code, to: to_code, rate: q }),
            None => Err(CurrencyError::RateComputation),
        }
    } else if from_code == base_code {
        let stored = rate_from_base(rates, &to_code)?;
        Ok(ConversionRate { from: from_code, to: to_code, rate: stored })
    } else {
        let rate_from = rate_from_base(rates, &from_code)?;
        let rate_to = rate_from_base(rates, &to_code)?;
        match checked_quotient(rate_to, rate_from) {
            Some(q) => Ok(ConversionRate { from: from_code, to: to_code, rate: q }),
            None => Err(CurrencyError::RateComputation),
        }
    }
}

impl ConversionRate {
    /// Rate from `from` to `to` over the stored `conversion_rates`, which are relative
    /// to the configured base currency.
    pub fn get_conversion_rate(
        config: &Config,
        conversion_rates: &Vec<ConversionRate>,
        from: &str,
        to: &str,
    ) -> (r: Result<ConversionRate, CurrencyError>)
        ensures
            agrees(r, resolve_spec(conversion_rates@, config.base@, from@, to@), from@, to@),
    {
        resolve_rate(conversion_rates, config.base.as_str(), from, to)
    }
}

} // verus!
