//! The target specification that the toolchain prints for a triple, read
//! for the one field that tells a simulator from a device.
//!
//! The specification is JSON, which `serde_json` reads. Of a JSON value
//! only its strings are spoken of here: each string under the keys that
//! lead to it through the objects around it. A value that is a string
//! holds that string under no key at all; an object holds what its members
//! hold, each under the member's key first; any other value holds nothing.

use vstd::prelude::*;
use vstd::string::StringExecFns;
use crate::error::{PackagingError, PackagingErrorView};

verus! {

#[verifier::external_type_specification]
#[verifier::external_body]
pub struct ExJsonValue(serde_json::Value);

#[verifier::external_type_specification]
#[verifier::external_body]
pub struct ExJsonError(serde_json::Error);

/// The strings of a document, each under the keys that lead to it.
pub type Strings = Map<Seq<Seq<char>>, Seq<char>>;

/// The strings that `value` holds, each under the keys that lead to it.
pub uninterp spec fn json_strings(value: serde_json::Value) -> Strings;

/// The strings of the JSON value that `bytes` spell, as
/// `serde_json::from_slice` reads them, or `None` where it rejects them.
pub uninterp spec fn json_document(bytes: Seq<u8>) -> Option<Strings>;

/// The strings that are held under `key`, each under the keys that follow
/// `key`.
pub open spec fn below(strings: Strings, key: Seq<char>) -> Strings {
    Map::new(
        |path: Seq<Seq<char>>| strings.dom().contains(seq![key] + path),
        |path: Seq<Seq<char>>| strings[seq![key] + path],
    )
}

/// Calls `serde_json::from_slice` for a `Value`. Whether it accepts the
/// bytes, and what the value it reads holds, depends on the bytes alone.
#[verifier::external_body]
fn parse(bytes: &[u8]) -> (document: Result<serde_json::Value, serde_json::Error>)
    ensures
        match document {
            Ok(value) => json_document(bytes@) == Some(json_strings(value)),
            Err(_) => json_document(bytes@) is None,
        },
{
    serde_json::from_slice::<serde_json::Value>(bytes)
}

/// Calls `serde_json::Value::get` with a text key. It finds the member of
/// an object under the key, which holds what the object holds under the
/// key; it finds nothing in an object without the key and in a value that
/// is no object, neither of which holds anything under the key.
#[verifier::external_body]
fn member<'a>(value: &'a serde_json::Value, key: &str) -> (found: Option<&'a serde_json::Value>)
    ensures
        match found {
            Some(m) => json_strings(*m) == below(json_strings(*value), key@),
            None => below(json_strings(*value), key@) == Strings::empty(),
        },
{
    value.get(key)
}

/// Calls `serde_json::Value::as_str`. It gives the text of a value that is
/// a string, which is what the value holds under no key; of any other
/// value, which holds nothing under no key, it gives nothing.
#[verifier::external_body]
fn text<'a>(value: &'a serde_json::Value) -> (found: Option<&'a str>)
    ensures
        match found {
            Some(t) => json_strings(*value).dom().contains(Seq::empty()) && json_strings(
                *value,
            )[Seq::empty()] == t@,
            None => !json_strings(*value).dom().contains(Seq::empty()),
        },
{
    value.as_str()
}

/// The low-level target string of a target specification: the string under
/// `llvm-target` of the document that the bytes spell.
pub open spec fn llvm_target_of(spec_json: Seq<u8>) -> Result<Seq<char>, PackagingErrorView> {
    match json_document(spec_json) {
        None => Err(PackagingErrorView::InvalidTargetSpec),
        Some(strings) => if strings.dom().contains(seq!["llvm-target"@]) {
            Ok(strings[seq!["llvm-target"@]])
        } else {
            Err(PackagingErrorView::MissingLlvmTarget)
        },
    }
}

/// Reads the low-level target string out of the target specification that
/// the toolchain printed.
pub fn llvm_target(spec_json: &[u8]) -> (target: Result<String, PackagingError>)
    ensures
        match target {
            Ok(t) => llvm_target_of(spec_json@) == Ok::<Seq<char>, PackagingErrorView>(t@),
            Err(e) => llvm_target_of(spec_json@) == Err::<Seq<char>, PackagingErrorView>(e@),
        },
{
    match parse(spec_json) {
        Err(_) => Err(PackagingError::InvalidTargetSpec),
        Ok(document) => {
            let ghost strings = json_strings(document);
            let ghost path = seq!["llvm-target"@];
            assert(seq!["llvm-target"@] + Seq::<Seq<char>>::empty() =~= path);
            match member(&document, "llvm-target") {
                None => {
                    assert(!below(strings, "llvm-target"@).dom().contains(Seq::empty()));
                    Err(PackagingError::MissingLlvmTarget)
                },
                Some(entry) => {
                    assert(below(strings, "llvm-target"@).dom().contains(Seq::empty())
                        == strings.dom().contains(path));
                    match text(entry) {
                        None => Err(PackagingError::MissingLlvmTarget),
                        Some(target) => {
                            assert(below(strings, "llvm-target"@)[Seq::empty()] == strings[path]);
                            Ok(String::from_str(target))
                        },
                    }
                },
            }
        },
    }
}

} // verus!
