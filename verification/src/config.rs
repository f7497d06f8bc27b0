//! The configuration that a fence carries: a TOML table, read into plain values.
use vstd::prelude::*;
use crate::text::{chars_of, same_text};

verus! {

/// A value of a configuration table.
#[derive(Debug)]
pub enum ConfigValue {
    /// A string.
    Text(String),
    /// An integer.
    Integer(i64),
    /// A boolean.
    Flag(bool),
    /// A table of further keys.
    Table,
    /// A float, a date, or an array.
    Other,
}

/// The model of a `ConfigValue`.
pub enum ConfigItem {
    Text(Seq<char>),
    Integer(int),
    Flag(bool),
    Table,
    Other,
}

impl View for ConfigValue {
    type V = ConfigItem;

    open spec fn view(&self) -> ConfigItem {
        match self {
            ConfigValue::Text(s) => ConfigItem::Text(s@),
            ConfigValue::Integer(i) => ConfigItem::Integer(*i as int),
            ConfigValue::Flag(b) => ConfigItem::Flag(*b),
            ConfigValue::Table => ConfigItem::Table,
            ConfigValue::Other => ConfigItem::Other,
        }
    }
}

/// Why a configuration was refused.
#[derive(Debug)]
pub enum ConfigError {
    /// The text is no TOML table; this is the parser's message.
    Syntax(String),
    /// The value of this key has another type than the key asks for, or is an
    /// integer out of range.
    Invalid(String),
    /// This key is required and absent.
    Missing(String),
}

/// The model of a `ConfigError`.
pub enum ConfigFault {
    Syntax(Seq<char>),
    Invalid(Seq<char>),
    Missing(Seq<char>),
}

impl View for ConfigError {
    type V = ConfigFault;

    open spec fn view(&self) -> ConfigFault {
        match self {
            ConfigError::Syntax(m) => ConfigFault::Syntax(m@),
            ConfigError::Invalid(k) => ConfigFault::Invalid(k@),
            ConfigError::Missing(k) => ConfigFault::Missing(k@),
        }
    }
}

/// The model of a list of table entries.
pub open spec fn entries_view(entries: Seq<(String, ConfigValue)>) -> Seq<(Seq<char>, ConfigItem)> {
    entries.map_values(|e: (String, ConfigValue)| (e.0@, e.1@))
}

/// The model of what parsing a table gave.
pub open spec fn parsed_view(parsed: Result<Vec<(String, ConfigValue)>, String>) -> Result<
    Seq<(Seq<char>, ConfigItem)>,
    Seq<char>,
> {
    match parsed {
        Ok(entries) => Ok(entries_view(entries@)),
        Err(message) => Err(message@),
    }
}

/// What `toml::from_str` makes of a text that is read as a table: the entries of
/// the table, or the message of the error.
pub uninterp spec fn toml_table(text: Seq<char>) -> Result<Seq<(Seq<char>, ConfigItem)>, Seq<char>>;

/// `toml::from_str` reads `text` as a TOML table. The entries come in the order
/// of the table's map; strings, integers and booleans keep their value, and of
/// any other value only its kind is kept. An error is handed on as its message.
#[verifier::external_body]
pub(crate) fn parse_table(text: &str) -> (r: Result<Vec<(String, ConfigValue)>, String>)
    ensures
        parsed_view(r) == toml_table(text@),
{
    let table = match toml::from_str::<toml::value::Table>(text) {
        Ok(table) => table,
        Err(e) => return Err(e.to_string()),
    };
    let entry = |(key, value)| match value {
        toml::Value::String(s) => (key, ConfigValue::Text(s)),
        toml::Value::Integer(i) => (key, ConfigValue::Integer(i)),
        toml::Value::Boolean(b) => (key, ConfigValue::Flag(b)),
        toml::Value::Table(_) => (key, ConfigValue::Table),
        toml::Value::Float(_) | toml::Value::Datetime(_) | toml::Value::Array(_) => {
            (key, ConfigValue::Other)
        },
    };
    Ok(table.into_iter().map(entry).collect())
}

/// The value of the first entry from position `i` on that has the key `key`.
pub open spec fn lookup_from(entries: Seq<(Seq<char>, ConfigItem)>, key: Seq<char>, i: int) -> Option<
    ConfigItem,
>
    decreases entries.len() - i,
{
    if i < 0 || i >= entries.len() {
        None
    } else if entries[i].0 == key {
        Some(entries[i].1)
    } else {
        lookup_from(entries, key, i + 1)
    }
}

/// The value that the table gives to `key`.
pub open spec fn lookup(entries: Seq<(Seq<char>, ConfigItem)>, key: Seq<char>) -> Option<
    ConfigItem,
> {
    lookup_from(entries, key, 0)
}

/// The string that the table gives to `key`, if it gives any value.
pub open spec fn text_of(entries: Seq<(Seq<char>, ConfigItem)>, key: Seq<char>) -> Result<
    Option<Seq<char>>,
    ConfigFault,
> {
    match lookup(entries, key) {
        None => Ok(None),
        Some(ConfigItem::Text(s)) => Ok(Some(s)),
        Some(_) => Err(ConfigFault::Invalid(key)),
    }
}

/// The count that the table gives to `key`, if it gives any value: an integer
/// that is not negative and fits the machine's word.
pub open spec fn count_of(entries: Seq<(Seq<char>, ConfigItem)>, key: Seq<char>) -> Result<
    Option<nat>,
    ConfigFault,
> {
    match lookup(entries, key) {
        None => Ok(None),
        Some(ConfigItem::Integer(i)) => if 0 <= i <= usize::MAX {
            Ok(Some(i as nat))
        } else {
            Err(ConfigFault::Invalid(key))
        },
        Some(_) => Err(ConfigFault::Invalid(key)),
    }
}

/// The boolean that the table gives to `key`, if it gives any value.
pub open spec fn flag_of(entries: Seq<(Seq<char>, ConfigItem)>, key: Seq<char>) -> Result<
    Option<bool>,
    ConfigFault,
> {
    match lookup(entries, key) {
        None => Ok(None),
        Some(ConfigItem::Flag(b)) => Ok(Some(b)),
        Some(_) => Err(ConfigFault::Invalid(key)),
    }
}

/// Whether the table gives a table to `key`, if it gives any value.
pub open spec fn table_of(entries: Seq<(Seq<char>, ConfigItem)>, key: Seq<char>) -> Result<
    bool,
    ConfigFault,
> {
    match lookup(entries, key) {
        None => Ok(false),
        Some(ConfigItem::Table) => Ok(true),
        Some(_) => Err(ConfigFault::Invalid(key)),
    }
}

/// The model of a result whose value is its own model.
pub open spec fn fault_view<T>(r: Result<T, ConfigError>) -> Result<T, ConfigFault> {
    match r {
        Ok(value) => Ok(value),
        Err(e) => Err(e@),
    }
}

/// The model of a string read from a table.
pub open spec fn text_view(r: Result<Option<String>, ConfigError>) -> Result<
    Option<Seq<char>>,
    ConfigFault,
> {
    match r {
        Ok(Some(s)) => Ok(Some(s@)),
        Ok(None) => Ok(None),
        Err(e) => Err(e@),
    }
}

/// The model of a count read from a table.
pub open spec fn count_view(r: Result<Option<usize>, ConfigError>) -> Result<
    Option<nat>,
    ConfigFault,
> {
    match r {
        Ok(Some(n)) => Ok(Some(n as nat)),
        Ok(None) => Ok(None),
        Err(e) => Err(e@),
    }
}

/// Whether the two strings hold the same text.
pub fn text_eq(a: &str, b: &str) -> (r: bool)
    ensures
        r == (a@ == b@),
{
    let left = chars_of(a);
    let right = chars_of(b);
    same_text(&left, &right)
}

/// The value that the table gives to `key`.
pub fn find<'a>(entries: &'a Vec<(String, ConfigValue)>, key: &str) -> (r: Option<&'a ConfigValue>)
    ensures
        match r {
            Some(value) => lookup(entries_view(entries@), key@) == Some(value@),
            None => lookup(entries_view(entries@), key@) is None,
        },
{
    let ghost model = entries_view(entries@);
    let mut i: usize = 0;
    while i < entries.len()
        invariant
            i <= entries.len(),
            model == entries_view(entries@),
            lookup_from(model, key@, i as int) == lookup(model, key@),
        decreases entries.len() - i,
    {
        assert(model[i as int] == (entries@[i as int].0@, entries@[i as int].1@));
        if text_eq(entries[i].0.as_str(), key) {
            return Some(&entries[i].1);
        }
        i += 1;
    }
    None
}

/// The string that the table gives to `key`, if it gives any value.
pub fn text_entry(entries: &Vec<(String, ConfigValue)>, key: &str) -> (r: Result<
    Option<String>,
    ConfigError,
>)
    ensures
        text_view(r) == text_of(entries_view(entries@), key@),
{
    match find(entries, key) {
        None => Ok(None),
        Some(ConfigValue::Text(s)) => Ok(Some(s.clone())),
        Some(_) => Err(ConfigError::Invalid(key.to_string())),
    }
}

/// The count that the table gives to `key`, if it gives any value.
pub fn count_entry(entries: &Vec<(String, ConfigValue)>, key: &str) -> (r: Result<
    Option<usize>,
    ConfigError,
>)
    ensures
        count_view(r) == count_of(entries_view(entries@), key@),
{
    match find(entries, key) {
        None => Ok(None),
        Some(ConfigValue::Integer(i)) => {
            let i: i64 = *i;
            if i < 0 || i as u64 > usize::MAX as u64 {
                Err(ConfigError::Invalid(key.to_string()))
            } else {
                Ok(Some(i as usize))
            }
        },
        Some(_) => Err(ConfigError::Invalid(key.to_string())),
    }
}

/// The boolean that the table gives to `key`, if it gives any value.
pub fn flag_entry(entries: &Vec<(String, ConfigValue)>, key: &str) -> (r: Result<
    Option<bool>,
    ConfigError,
>)
    ensures
        fault_view(r) == flag_of(entries_view(entries@), key@),
{
    match find(entries, key) {
        None => Ok(None),
        Some(ConfigValue::Flag(b)) => Ok(Some(*b)),
        Some(_) => Err(ConfigError::Invalid(key.to_string())),
    }
}

/// Whether the table gives a table to `key`, if it gives any value.
pub fn table_entry(entries: &Vec<(String, ConfigValue)>, key: &str) -> (r: Result<
    bool,
    ConfigError,
>)
    ensures
        fault_view(r) == table_of(entries_view(entries@), key@),
{
    match find(entries, key) {
        None => Ok(false),
        Some(ConfigValue::Table) => Ok(true),
        Some(_) => Err(ConfigError::Invalid(key.to_string())),
    }
}

} // verus!
