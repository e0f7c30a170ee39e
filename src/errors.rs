use vstd::prelude::*;

verus! {

/// Failures of the storage layer, of rate resolution and of fetching from the provider.
#[derive(Clone, Debug, PartialEq, Eq)]
pub enum CurrencyError {
    /// The store could not be read or written, or holds malformed data.
    Storage { message: String },
    /// No stored base-relative rate has this currency as its target.
    RateNotFound { code: String },
    /// A stored rate cannot be used: a division by it is refused.
    RateComputation,
    /// The provider answered with its error envelope, or could not be reached.
    ProviderFetch { code: String, message: String },
}

} // verus!
