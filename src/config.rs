use vstd::prelude::*;

use crate::storage::{PSQLStorageSettings, StorageType, TSVStorageSettings};
use crate::text::push_text;

verus! {

/// Configuration of the tool.
#[derive(Clone, Debug, PartialEq, Eq)]
pub struct Config {
    /// API token.
    pub api_key: String,
    /// Base currency.
    pub base: String,
    /// Endpoint URL to get supported symbols (parameter: `{api_key}`).
    pub symbols_endpoint_url: String,
    /// Endpoint URL to get conversion rates (parameters: `{api_key}`, `{base}`).
    pub latest_endpoint_url: String,
    /// Storage of the symbols.
    pub symbols_storage: StorageType,
    /// Storage of the conversion rates.
    pub conversion_rates_storage: StorageType,
}

/// `relative` placed under the directory `dir`, with one separator between them.
pub open spec fn join_path(dir: Seq<char>, relative: Seq<char>) -> Seq<char> {
    if dir.len() == 0 {
        relative
    } else if dir.last() == '/' {
        dir + relative
    } else {
        dir + seq!['/'] + relative
    }
}

/// Appends `relative` to the directory `dir`.
pub fn join(dir: &str, relative: &str) -> (r: String)
    ensures
        r@ == join_path(dir@, relative@),
{
    let mut path = String::new();
    push_text(&mut path, dir);
    let n = dir.unicode_len();
    if n > 0 && dir.get_char(n - 1) != '/' {
        push_text(&mut path, "/");
        proof {
            reveal_strlit("/");
            assert(path@ =~= dir@ + seq!['/']);
        }
    }
    push_text(&mut path, relative);
    path
}

/// Placeholder that stands for a missing API key.
pub open spec fn api_key_placeholder() -> Seq<char> {
    "#INSERT_API_KEY_HERE#"@
}

impl Config {
    /// The default configuration for a user whose home directory is `home_dir`: base
    /// EUR, both datasets in files under `.currency-conversion-cli` there.
    pub fn with_home_dir(home_dir: &str) -> (r: Config)
        ensures
            r.api_key@ == api_key_placeholder(),
            r.base@ == "EUR"@,
            r.symbols_storage matches StorageType::TSV(s) && s.file_path@ == join_path(
                home_dir@,
                ".currency-conversion-cli/symbols.tsv"@,
            ),
            r.conversion_rates_storage matches StorageType::TSV(s) && s.file_path@ == join_path(
                home_dir@,
                ".currency-conversion-cli/conversion_rates.tsv"@,
            ),
            r.latest_endpoint_url@
                == "http://api.exchangeratesapi.io/v1/latest?access_key={api_key}&base={base}"@,
            r.symbols_endpoint_url@
                == "http://api.exchangeratesapi.io/v1/symbols?access_key={api_key}"@,
    {
        Config {
            api_key: "#INSERT_API_KEY_HERE#".to_owned(),
            base: "EUR".to_owned(),
            symbols_storage: StorageType::TSV(
                TSVStorageSettings {
                    file_path: join(home_dir, ".currency-conversion-cli/symbols.tsv"),
                },
            ),
            conversion_rates_storage: StorageType::TSV(
                TSVStorageSettings {
                    file_path: join(home_dir, ".currency-conversion-cli/conversion_rates.tsv"),
                },
            ),
            latest_endpoint_url:
                "http://api.exchangeratesapi.io/v1/latest?access_key={api_key}&base={base}".to_owned(),
            symbols_endpoint_url: "http://api.exchangeratesapi.io/v1/symbols?access_key={api_key}".to_owned(),
        }
    }
}

/// What std's `str::trim` leaves of a text.
pub uninterp spec fn trimmed(s: Seq<char>) -> Seq<char>;

/// What std's `str::to_lowercase` makes of a text.
pub uninterp spec fn lowercase(s: Seq<char>) -> Seq<char>;

/// `needle` occurs in `haystack` at some position.
pub open spec fn occurs_in(needle: Seq<char>, haystack: Seq<char>) -> bool {
    exists|i: int|
        0 <= i && i + needle.len() <= haystack.len() && #[trigger] haystack.subrange(
            i,
            i + needle.len(),
        ) == needle
}

/// Relies on std's `str::trim`: the text without its leading and trailing whitespace.
#[verifier::external_body]
fn trim_text(s: &str) -> (r: String)
    ensures
        r@ == trimmed(s@),
{
    s.trim().to_owned()
}

/// Relies on std's `str::to_lowercase`: the text in lower case.
#[verifier::external_body]
fn lowercase_text(s: &str) -> (r: String)
    ensures
        r@ == lowercase(s@),
{
    s.to_lowercase()
}

/// Relies on std's `str::contains` with a text pattern: whether it occurs.
#[verifier::external_body]
fn contains_text(haystack: &str, needle: &str) -> (r: bool)
    ensures
        r == occurs_in(needle@, haystack@),
{
    haystack.contains(needle)
}

/// An answer that has already been trimmed: `None` where it is empty.
pub fn answer_of_trimmed(t: String) -> (r: Option<String>)
    ensures
        t@.len() == 0 ==> r is None,
        t@.len() > 0 ==> r == Some(t),
{
    if t.as_str().is_empty() {
        None
    } else {
        Some(t)
    }
}

/// The answer typed on `line`: the line without surrounding whitespace, or `None`
/// where nothing remains.
pub fn prompt_string_without_text_and_default(line: &str) -> (r: Option<String>)
    ensures
        trimmed(line@).len() == 0 ==> r is None,
        trimmed(line@).len() > 0 ==> (r matches Some(a) && a@ == trimmed(line@)),
{
    answer_of_trimmed(trim_text(line))
}

/// The answer typed on `line`, or `current_value` where the line is blank.
pub fn prompt_string(line: &str, current_value: &String) -> (r: String)
    ensures
        trimmed(line@).len() == 0 ==> r@ == current_value@,
        trimmed(line@).len() > 0 ==> r@ == trimmed(line@),
{
    match prompt_string_without_text_and_default(line) {
        Some(a) => a,
        None => current_value.clone(),
    }
}

/// A copy of a storage choice.
pub fn copy_storage(s: &StorageType) -> (r: StorageType)
    ensures
        r == *s,
{
    match s {
        StorageType::TSV(t) => StorageType::TSV(TSVStorageSettings { file_path: t.file_path.clone() }),
        StorageType::PSQL(p) => StorageType::PSQL(
            PSQLStorageSettings {
                username: p.username.clone(),
                password: p.password.clone(),
                port: p.port,
                host: p.host.clone(),
                database_name: p.database_name.clone(),
            },
        ),
    }
}

/// Whether a storage type named by the user, already in lower case, is the
/// flat-file one.
pub fn names_tsv(lowered: &str) -> (r: bool)
    ensures
        r == occurs_in("tsv"@, lowered@),
{
    contains_text(lowered, "tsv")
}

/// The storage chosen by the user: the flat-file settings where the type named
/// is the flat-file one and settings were given, else `current_value` unchanged.
pub fn prompt_storage_type_settings(
    storage_type: &str,
    tsv_settings: Option<TSVStorageSettings>,
    current_value: &StorageType,
) -> (r: StorageType)
    ensures
        occurs_in("tsv"@, lowercase(storage_type@)) && tsv_settings is Some ==> r
            == StorageType::TSV(tsv_settings->0),
        !(occurs_in("tsv"@, lowercase(storage_type@)) && tsv_settings is Some) ==> r
            == *current_value,
{
    let lowered = lowercase_text(storage_type);
    if names_tsv(lowered.as_str()) {
        match tsv_settings {
            Some(s) => StorageType::TSV(s),
            None => copy_storage(current_value),
        }
    } else {
        copy_storage(current_value)
    }
}

} // verus!
