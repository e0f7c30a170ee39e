use currency_conversion::config::{
    prompt_storage_type_settings, prompt_string, prompt_string_without_text_and_default, Config,
};
use currency_conversion::storage::{StorageType, TSVStorageSettings};

#[test]
fn default_config_under_home() {
    let config = Config::with_home_dir("/home/user");
    assert_eq!(config.base, "EUR");
    assert_eq!(config.api_key, "#INSERT_API_KEY_HERE#");
    assert_eq!(
        config.symbols_storage,
        StorageType::TSV(TSVStorageSettings {
            file_path: "/home/user/.currency-conversion-cli/symbols.tsv".to_string()
        })
    );
    let trailing = Config::with_home_dir("/root/");
    assert_eq!(
        trailing.conversion_rates_storage,
        StorageType::TSV(TSVStorageSettings {
            file_path: "/root/.currency-conversion-cli/conversion_rates.tsv".to_string()
        })
    );
}

#[test]
fn blank_answer_is_none() {
    assert_eq!(prompt_string_without_text_and_default("  \n"), None);
    assert_eq!(prompt_string_without_text_and_default(" USD \n"), Some("USD".to_string()));
    assert_eq!(prompt_string("\n", &"EUR".to_string()), "EUR");
    assert_eq!(prompt_string(" GBP\n", &"EUR".to_string()), "GBP");
}

#[test]
fn storage_type_answer() {
    let current = StorageType::TSV(TSVStorageSettings { file_path: "old.tsv".to_string() });
    let chosen = TSVStorageSettings { file_path: "new.tsv".to_string() };
    assert_eq!(
        prompt_storage_type_settings("My TSV file", Some(chosen.clone()), &current),
        StorageType::TSV(chosen.clone())
    );
    assert_eq!(prompt_storage_type_settings("TSV", None, &current), current);
    assert_eq!(prompt_storage_type_settings("sqlite", Some(chosen), &current), current);
}
