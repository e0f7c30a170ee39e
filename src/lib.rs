//! A local cache of currency symbols and base-relative conversion rates: the
//! flat-file and relational storage formats, the update transaction, and the
//! resolution of a rate between any two currencies through the base currency.

pub mod config;
pub mod conversion_rate;
pub mod decimal;
pub mod errors;
pub mod flat_file;
pub mod relational;
pub mod storage;
pub mod symbols;
pub mod text;
pub mod tsv;
pub mod update;
