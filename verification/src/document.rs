//! The TOML document behind a manifest, as far as the manifest model reads it.
//!
//! Parsing is the `toml` crate's work. This module declares its types, gives
//! a mathematical model to what a parsed value holds, and states what the
//! few calls that the library makes return over that model. Nothing in this
//! file is proved: it is what the rest of the library takes on trust.

use vstd::prelude::*;
use crate::text::views;

verus! {

/// What a TOML value holds, as far as a manifest is concerned: a string, an
/// array, a table, or something else (a number, a boolean, a date).
pub enum Node {
    Text(Seq<char>),
    List(Seq<Node>),
    Table(Map<Seq<char>, Node>),
    Other,
}

/// `toml::Value`, held without looking inside.
#[verifier::external_type_specification]
#[verifier::external_body]
pub struct ExValue(toml::Value);

/// `toml::map::Map`, the table type of the `toml` crate, held without looking
/// inside.
#[verifier::external_type_specification]
#[verifier::external_body]
#[verifier::reject_recursive_types(K)]
#[verifier::reject_recursive_types(V)]
pub struct ExTable<K, V>(toml::map::Map<K, V>);

/// `toml::de::Error`, the parser's diagnostic, held without looking inside.
#[verifier::external_type_specification]
#[verifier::external_body]
pub struct ExParseError(toml::de::Error);

/// What the value `v` holds.
pub uninterp spec fn node_of(v: toml::Value) -> Node;

/// The entries of the table `t`, by key.
pub uninterp spec fn entries_of(t: toml::map::Map<String, toml::Value>) -> Map<Seq<char>, Node>;

/// `toml::Value::as_str`: the string of a string value, nothing for any other
/// value.
pub assume_specification<'a>[ toml::Value::as_str ](v: &'a toml::Value) -> (r: Option<&'a str>)
    ensures
        match node_of(*v) {
            Node::Text(s) => r is Some && r.unwrap()@ == s,
            _ => r is None,
        },
;

/// `toml::Value::as_table`: the table of a table value, nothing for any other
/// value.
pub assume_specification<'a>[ toml::Value::as_table ](v: &'a toml::Value) -> (r: Option<
    &'a toml::map::Map<String, toml::Value>,
>)
    ensures
        match node_of(*v) {
            Node::Table(m) => r is Some && entries_of(*r.unwrap()) == m,
            _ => r is None,
        },
;

/// `toml::Value::as_array`: the elements of an array value in order, nothing
/// for any other value.
pub assume_specification<'a>[ toml::Value::as_array ](v: &'a toml::Value) -> (r: Option<
    &'a Vec<toml::Value>,
>)
    ensures
        match node_of(*v) {
            Node::List(items) => r is Some && r.unwrap()@.len() == items.len() && forall|i: int|
                0 <= i < items.len() ==> node_of(#[trigger] r.unwrap()@[i]) == items[i],
            _ => r is None,
        },
;

/// `toml::map::Map::get` on a table with a string key: the value stored under
/// `key`, if there is one.
#[verifier::external_body]
pub(crate) fn table_get<'a>(t: &'a toml::map::Map<String, toml::Value>, key: &str) -> (r: Option<
    &'a toml::Value,
>)
    ensures
        match r {
            Some(v) => entries_of(*t).contains_key(key@) && entries_of(*t)[key@] == node_of(*v),
            None => !entries_of(*t).contains_key(key@),
        },
{
    t.get(key)
}

/// `toml::map::Map::keys` on a table, each key copied: the keys of the table.
/// Nothing is said of their order.
#[verifier::external_body]
pub(crate) fn table_keys(t: &toml::map::Map<String, toml::Value>) -> (r: Vec<String>)
    ensures
        forall|k: Seq<char>| views(r@).contains(k) <==> entries_of(*t).contains_key(k),
{
    t.keys().cloned().collect()
}

/// What `toml::from_str` makes of `text`, read as a table: the entries of the
/// document's root table, or the parser's diagnostic where `text` is not a
/// TOML document.
pub uninterp spec fn document_of(text: Seq<char>) -> Result<Map<Seq<char>, Node>, Seq<char>>;

/// The diagnostic that the parser's error `e` shows.
pub uninterp spec fn diagnostic_of(e: toml::de::Error) -> Seq<char>;

/// `toml::from_str` at the type `toml::Table`: the root table of the document
/// `text`, or the parser's error.
#[verifier::external_body]
pub(crate) fn parse_document(text: &str) -> (r: Result<
    toml::map::Map<String, toml::Value>,
    toml::de::Error,
>)
    ensures
        match r {
            Ok(t) => document_of(text@) == Ok::<Map<Seq<char>, Node>, Seq<char>>(entries_of(t)),
            Err(e) => document_of(text@) == Err::<Map<Seq<char>, Node>, Seq<char>>(
                diagnostic_of(e),
            ),
        },
{
    toml::from_str::<toml::Table>(text)
}

/// `toml::de::Error`'s `Display`, through `to_string`: the diagnostic as text.
#[verifier::external_body]
pub(crate) fn diagnostic(e: &toml::de::Error) -> (r: String)
    ensures
        r@ == diagnostic_of(*e),
{
    e.to_string()
}

} // verus!
