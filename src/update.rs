use vstd::prelude::*;

use crate::conversion_rate::ConversionRate;
use crate::decimal::Decimal;
use crate::errors::CurrencyError;

verus! {

/// Exchange rates API error response.
#[derive(Clone, Debug, PartialEq, Eq)]
pub struct ErrorResponseAPI {
    pub error: ErrorInfoAPI,
}

/// Exchange rates API error information.
#[derive(Clone, Debug, PartialEq, Eq)]
pub struct ErrorInfoAPI {
    pub code: String,
    pub message: String,
}

impl ErrorResponseAPI {
    /// The fetch failure that this envelope reports.
    pub fn into_error(self) -> (r: CurrencyError)
        ensures
            r matches CurrencyError::ProviderFetch { code, message } && code == self.error.code
                && message == self.error.message,
    {
        CurrencyError::ProviderFetch { code: self.error.code, message: self.error.message }
    }
}

/// Rates as the provider gives them, target code and rate, turned into rates from
/// `base`, one for each entry and in the same order.
pub fn from_hash_map_to_vec(data: Vec<(String, Decimal)>, base: &str) -> (r: Result<
    Vec<ConversionRate>,
    CurrencyError,
>)
    ensures
        r matches Ok(v) && v@.len() == data@.len() && forall|i: int|
            0 <= i < v@.len() ==> {
                &&& #[trigger] v@[i].from@ == base@
                &&& v@[i].to@ == data@[i].0@
                &&& v@[i].rate == data@[i].1
            },
{
    let mut res: Vec<ConversionRate> = Vec::new();
    let mut i: usize = 0;
    while i < data.len()
        invariant
            i <= data@.len(),
            res@.len() == i,
            forall|j: int|
                0 <= j < i ==> {
                    &&& #[trigger] res@[j].from@ == base@
                    &&& res@[j].to@ == data@[j].0@
                    &&& res@[j].rate == data@[j].1
                },
        decreases data.len() - i,
    {
        res.push(ConversionRate { from: base.to_owned(), to: data[i].0.clone(), rate: data[i].1 });
        i = i + 1;
    }
    Ok(res)
}

} // verus!
