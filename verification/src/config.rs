//! The companion configuration file of a package, read for the settings
//! of its Swift bindings.
//!
//! The file is TOML, which `toml` reads. Of a table or a value only its
//! strings are spoken of here, each under the keys that lead to it through
//! the tables around it, as for the strings of a JSON value.

use vstd::prelude::*;
use vstd::string::StringExecFns;
use vstd::utf8::{decode_utf8, valid_utf8};
use crate::target_spec::{below, Strings};

verus! {

#[verifier::external_type_specification]
#[verifier::external_body]
#[verifier::reject_recursive_types(K)]
#[verifier::reject_recursive_types(V)]
pub struct ExTomlMap<K, V>(toml::map::Map<K, V>);

#[verifier::external_type_specification]
#[verifier::external_body]
pub struct ExTomlValue(toml::Value);

#[verifier::external_type_specification]
#[verifier::external_body]
pub struct ExTomlError(toml::de::Error);

/// The strings that `table` holds, each under the keys that lead to it.
pub uninterp spec fn table_strings(table: toml::Table) -> Strings;

/// The strings that `value` holds, each under the keys that lead to it.
pub uninterp spec fn toml_strings(value: toml::Value) -> Strings;

/// The strings of the table that `text` spells, as `toml::Table::from_str`
/// reads it, or `None` where it rejects the text.
pub uninterp spec fn toml_document(text: Seq<char>) -> Option<Strings>;

/// Calls `std::str::from_utf8`: the text that the bytes encode, where they
/// are valid UTF-8, and nothing where they are not.
#[verifier::external_body]
fn utf8_text(bytes: &[u8]) -> (text: Option<&str>)
    ensures
        match text {
            Some(t) => valid_utf8(bytes@) && t@ == decode_utf8(bytes@),
            None => !valid_utf8(bytes@),
        },
{
    std::str::from_utf8(bytes).ok()
}

/// Calls `toml::Table::from_str`, by way of `str::parse`. Whether it
/// accepts the text, and what the table it reads holds, depends on the
/// text alone.
#[verifier::external_body]
fn parse(text: &str) -> (document: Result<toml::Table, toml::de::Error>)
    ensures
        match document {
            Ok(table) => toml_document(text@) == Some(table_strings(table)),
            Err(_) => toml_document(text@) is None,
        },
{
    text.parse::<toml::Table>()
}

/// Calls `toml::Table::get`. It finds the entry under the key, which holds
/// what the table holds under the key; in a table without the key, which
/// holds nothing under the key, it finds nothing.
#[verifier::external_body]
fn entry<'a>(table: &'a toml::Table, key: &str) -> (found: Option<&'a toml::Value>)
    ensures
        match found {
            Some(e) => toml_strings(*e) == below(table_strings(*table), key@),
            None => below(table_strings(*table), key@) == Strings::empty(),
        },
{
    table.get(key)
}

/// Calls `toml::Value::get` with a text key. It finds the entry of a table
/// under the key, which holds what the table holds under the key; it finds
/// nothing in a table without the key and in a value that is no table,
/// neither of which holds anything under the key.
#[verifier::external_body]
fn member<'a>(value: &'a toml::Value, key: &str) -> (found: Option<&'a toml::Value>)
    ensures
        match found {
            Some(m) => toml_strings(*m) == below(toml_strings(*value), key@),
            None => below(toml_strings(*value), key@) == Strings::empty(),
        },
{
    value.get(key)
}

/// Calls `toml::Value::as_str`. It gives the text of a value that is a
/// string, which is what the value holds under no key; of any other value,
/// which holds nothing under no key, it gives nothing.
#[verifier::external_body]
fn text<'a>(value: &'a toml::Value) -> (found: Option<&'a str>)
    ensures
        match found {
            Some(t) => toml_strings(*value).dom().contains(Seq::empty()) && toml_strings(
                *value,
            )[Seq::empty()] == t@,
            None => !toml_strings(*value).dom().contains(Seq::empty()),
        },
{
    value.as_str()
}

/// Why a setting could not be read from a configuration file.
#[derive(Debug, Clone, Copy, PartialEq, Eq, Structural)]
pub enum ConfigFault {
    /// The file is not UTF-8.
    NotUtf8,
    /// The file is not TOML.
    Invalid,
    /// The file has no text at `bindings.swift.<key>`.
    KeyMissing,
}

/// The keys that lead to the setting `key` of the Swift bindings.
pub open spec fn setting_path(key: Seq<char>) -> Seq<Seq<char>> {
    seq!["bindings"@, "swift"@, key]
}

/// The text at `bindings.swift.<key>` among the strings of a table.
pub open spec fn setting_among(strings: Strings, key: Seq<char>) -> Option<Seq<char>> {
    if strings.dom().contains(setting_path(key)) {
        Some(strings[setting_path(key)])
    } else {
        None
    }
}

/// The setting of the Swift bindings under `key` in a configuration file
/// with the given content.
pub open spec fn swift_setting(content: Seq<u8>, key: Seq<char>) -> Result<Seq<char>, ConfigFault> {
    if !valid_utf8(content) {
        Err(ConfigFault::NotUtf8)
    } else {
        match toml_document(decode_utf8(content)) {
            None => Err(ConfigFault::Invalid),
            Some(strings) => match setting_among(strings, key) {
                None => Err(ConfigFault::KeyMissing),
                Some(value) => Ok(value),
            },
        }
    }
}

/// What lies under a key, and under a second key below it, lies under the
/// two keys.
proof fn lemma_below_twice(strings: Strings, first: Seq<char>, second: Seq<char>, path: Seq<Seq<char>>)
    ensures
        below(below(strings, first), second).dom().contains(path) == strings.dom().contains(
            seq![first, second] + path,
        ),
        below(below(strings, first), second).dom().contains(path) ==> below(
            below(strings, first),
            second,
        )[path] == strings[seq![first, second] + path],
{
    assert(seq![first] + (seq![second] + path) =~= seq![first, second] + path);
}

/// Looks up the text at `bindings.swift.<key>` in a table.
pub fn lookup_swift_setting<'a>(table: &'a toml::Table, key: &str) -> (found: Option<&'a str>)
    ensures
        match found {
            Some(t) => setting_among(table_strings(*table), key@) == Some(t@),
            None => setting_among(table_strings(*table), key@) is None,
        },
{
    let ghost strings = table_strings(*table);
    let ghost swift = below(below(strings, "bindings"@), "swift"@);
    proof {
        lemma_below_twice(strings, "bindings"@, "swift"@, seq![key@]);
        assert(seq!["bindings"@, "swift"@] + seq![key@] =~= setting_path(key@));
        assert(seq![key@] + Seq::<Seq<char>>::empty() =~= seq![key@]);
        assert(seq!["swift"@] + seq![key@] =~= seq!["swift"@, key@]);
    }
    match entry(table, "bindings") {
        None => {
            assert(!below(strings, "bindings"@).dom().contains(seq!["swift"@, key@]));
            assert(seq!["bindings"@] + seq!["swift"@, key@] =~= setting_path(key@));
            None
        },
        Some(bindings) => match member(bindings, "swift") {
            None => {
                assert(!swift.dom().contains(seq![key@]));
                None
            },
            Some(settings) => match member(settings, key) {
                None => {
                    assert(!below(swift, key@).dom().contains(Seq::empty()));
                    None
                },
                Some(value) => {
                    assert(below(swift, key@).dom().contains(Seq::empty()) == swift.dom().contains(
                        seq![key@],
                    ));
                    match text(value) {
                        None => None,
                        Some(t) => {
                            assert(below(swift, key@)[Seq::empty()] == swift[seq![key@]]);
                            Some(t)
                        },
                    }
                },
            },
        },
    }
}

/// Reads the setting of the Swift bindings under `key` from the content of
/// a configuration file.
pub fn read_swift_setting(content: &[u8], key: &str) -> (setting: Result<String, ConfigFault>)
    ensures
        match setting {
            Ok(value) => swift_setting(content@, key@) == Ok::<Seq<char>, ConfigFault>(value@),
            Err(fault) => swift_setting(content@, key@) == Err::<Seq<char>, ConfigFault>(fault),
        },
{
    match utf8_text(content) {
        None => Err(ConfigFault::NotUtf8),
        Some(text) => match parse(text) {
            Err(_) => Err(ConfigFault::Invalid),
            Ok(table) => match lookup_swift_setting(&table, key) {
                None => Err(ConfigFault::KeyMissing),
                Some(value) => Ok(String::from_str(value)),
            },
        },
    }
}

} // verus!
