use std::collections::HashMap;

use currency_conversion::config::Config;
use currency_conversion::conversion_rate::{resolve_rate, ConversionRate};
use currency_conversion::decimal::Decimal;
use currency_conversion::errors::CurrencyError;
use currency_conversion::update;
use currency_conversion::update::{ErrorInfoAPI, ErrorResponseAPI};

fn dec(d: rust_decimal::Decimal) -> Decimal {
    Decimal::try_from_parts(d.mantissa(), d.scale()).unwrap()
}

fn eur_rates() -> (ConversionRate, ConversionRate) {
    let base = "EUR".to_string();
    let usd = ConversionRate {
        from: base.clone(),
        to: "USD".to_string(),
        rate: Decimal::new(108, 2),
    };
    let tbh = ConversionRate {
        from: base.clone(),
        to: "TBH".to_string(),
        rate: Decimal::new(32, 0),
    };
    (usd, tbh)
}

fn eur_config() -> Config {
    let mut config = Config::with_home_dir("/home/user");
    config.base = "EUR".to_string();
    config
}

#[test]
fn from_hash_map_to_vec() {
    let mut hashmap = HashMap::new();

    let base = "EUR".to_string();
    let usd = ConversionRate {
        from: base.clone(),
        to: "USD".to_string(),
        rate: Decimal::new(108, 2),
    };
    hashmap.insert("USD".to_string(), Decimal::new(108, 2));

    let tbh = ConversionRate {
        from: base.clone(),
        to: "TBH".to_string(),
        rate: Decimal::new(32, 0),
    };

    hashmap.insert("TBH".to_string(), Decimal::new(32, 0));

    let res = update::from_hash_map_to_vec(hashmap.into_iter().collect(), &base).unwrap();

    assert!(res.contains(&usd));
    assert!(res.contains(&tbh));
}

#[test]
fn get_conversion_rate() {
    let (usd, tbh) = eur_rates();
    let data = vec![usd.clone(), tbh];
    let config = eur_config();

    let res = ConversionRate::get_conversion_rate(&config, &data, "EUR", "USD");

    assert!(res.is_ok());
    assert_eq!(res.unwrap(), usd);
}

#[test]
fn get_conversion_rate2() {
    let (usd, tbh) = eur_rates();
    let data = vec![usd.clone(), tbh];
    let config = eur_config();

    let res = ConversionRate::get_conversion_rate(&config, &data, "USD", "EUR");

    let expected = ConversionRate {
        from: "USD".to_string(),
        to: "EUR".to_string(),
        rate: dec(rust_decimal::Decimal::ONE / rust_decimal::Decimal::new(108, 2)),
    };

    assert!(res.is_ok());
    assert_eq!(res.unwrap(), expected);
}

#[test]
fn get_conversion_rate3() {
    let (usd, tbh) = eur_rates();
    let data = vec![usd.clone(), tbh.clone()];
    let config = eur_config();

    let res = ConversionRate::get_conversion_rate(&config, &data, "USD", "TBH");

    let expected = ConversionRate {
        from: "USD".to_string(),
        to: "TBH".to_string(),
        rate: dec(rust_decimal::Decimal::new(32, 0) / rust_decimal::Decimal::new(108, 2)),
    };

    assert!(res.is_ok());
    assert_eq!(res.unwrap(), expected);
}

#[test]
fn inverse_of_stored_rate_is_exact_decimal() {
    let (usd, _) = eur_rates();
    let res = resolve_rate(&vec![usd], "EUR", "USD", "EUR").unwrap();
    let expected = rust_decimal::Decimal::ONE / rust_decimal::Decimal::new(108, 2);
    assert_eq!(res.rate, dec(expected));
    assert_eq!(res.from, "USD");
    assert_eq!(res.to, "EUR");
}

#[test]
fn triangulated_rate_is_quotient_of_base_rates() {
    let base = "EUR";
    let rates = vec![
        ConversionRate { from: base.to_string(), to: "USD".to_string(), rate: Decimal::new(108, 2) },
        ConversionRate { from: base.to_string(), to: "THB".to_string(), rate: Decimal::new(32, 0) },
    ];
    let res = resolve_rate(&rates, base, "USD", "THB").unwrap();
    let expected = rust_decimal::Decimal::new(32, 0) / rust_decimal::Decimal::new(108, 2);
    assert_eq!(res.rate, dec(expected));
    assert_ne!(res.rate, Decimal::new(32, 0));
}

#[test]
fn inverse_consistency_on_values() {
    let (usd, tbh) = eur_rates();
    let rates = vec![usd, tbh];
    let from_base = resolve_rate(&rates, "EUR", "EUR", "TBH").unwrap();
    let to_base = resolve_rate(&rates, "EUR", "TBH", "EUR").unwrap();
    assert_eq!(from_base.rate, Decimal::new(32, 0));
    let expected = rust_decimal::Decimal::ONE / rust_decimal::Decimal::new(32, 0);
    assert_eq!(to_base.rate, dec(expected));
}

#[test]
fn missing_currency_is_rate_not_found() {
    let (usd, tbh) = eur_rates();
    let rates = vec![usd, tbh];
    let res = resolve_rate(&rates, "EUR", "EUR", "ZZZ");
    assert_eq!(res, Err(CurrencyError::RateNotFound { code: "ZZZ".to_string() }));
    let res = resolve_rate(&rates, "EUR", "ZZZ", "EUR");
    assert_eq!(res, Err(CurrencyError::RateNotFound { code: "ZZZ".to_string() }));
    let res = resolve_rate(&rates, "EUR", "YYY", "ZZZ");
    assert_eq!(res, Err(CurrencyError::RateNotFound { code: "YYY".to_string() }));
    let res = resolve_rate(&rates, "EUR", "USD", "ZZZ");
    assert_eq!(res, Err(CurrencyError::RateNotFound { code: "ZZZ".to_string() }));
}

#[test]
fn zero_rate_is_computation_error() {
    let rates = vec![
        ConversionRate { from: "EUR".to_string(), to: "XXX".to_string(), rate: Decimal::new(0, 0) },
        ConversionRate { from: "EUR".to_string(), to: "USD".to_string(), rate: Decimal::new(108, 2) },
    ];
    assert_eq!(resolve_rate(&rates, "EUR", "XXX", "EUR"), Err(CurrencyError::RateComputation));
    assert_eq!(resolve_rate(&rates, "EUR", "XXX", "USD"), Err(CurrencyError::RateComputation));
    assert_eq!(resolve_rate(&rates, "EUR", "EUR", "XXX").unwrap().rate, Decimal::new(0, 0));
}

#[test]
fn first_stored_rate_wins() {
    let rates = vec![
        ConversionRate { from: "EUR".to_string(), to: "USD".to_string(), rate: Decimal::new(108, 2) },
        ConversionRate { from: "EUR".to_string(), to: "USD".to_string(), rate: Decimal::new(2, 0) },
    ];
    assert_eq!(resolve_rate(&rates, "EUR", "EUR", "USD").unwrap().rate, Decimal::new(108, 2));
}

#[test]
fn empty_rate_set_reports_missing_currency() {
    let res = resolve_rate(&Vec::new(), "EUR", "EUR", "USD");
    assert_eq!(res, Err(CurrencyError::RateNotFound { code: "USD".to_string() }));
}

#[test]
fn provider_rates_take_the_base_as_source() {
    let data = vec![
        ("GBP".to_string(), Decimal::new(72007, 5)),
        ("JPY".to_string(), Decimal::new(107346001, 6)),
    ];
    let res = update::from_hash_map_to_vec(data, "EUR").unwrap();
    assert_eq!(res.len(), 2);
    assert_eq!(res[0], ConversionRate { from: "EUR".to_string(), to: "GBP".to_string(), rate: Decimal::new(72007, 5) });
    assert_eq!(res[1].to, "JPY");
    assert_eq!(res[1].from, "EUR");
    assert!(update::from_hash_map_to_vec(Vec::new(), "EUR").unwrap().is_empty());
}

#[test]
fn provider_error_envelope_becomes_fetch_error() {
    let envelope = ErrorResponseAPI {
        error: ErrorInfoAPI { code: "101".to_string(), message: "invalid access key".to_string() },
    };
    assert_eq!(
        envelope.into_error(),
        CurrencyError::ProviderFetch { code: "101".to_string(), message: "invalid access key".to_string() }
    );
}

#[test]
fn decimal_parts_are_range_checked() {
    assert!(Decimal::try_from_parts(79228162514264337593543950335, 28).is_some());
    assert!(Decimal::try_from_parts(79228162514264337593543950336, 0).is_none());
    assert!(Decimal::try_from_parts(-79228162514264337593543950336, 0).is_none());
    assert!(Decimal::try_from_parts(1, 29).is_none());
    assert!(Decimal::new(5, 0).is_zero() == false);
    assert!(Decimal::new(0, 3).is_zero());
    assert_eq!(Decimal::one(), Decimal::new(1, 0));
}
