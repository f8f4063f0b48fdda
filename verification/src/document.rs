//! TOML values as the `toml` crate holds them.
//!
//! Verus cannot look inside a `toml::Value`. [`Toml`] and [`toml_data`] say
//! what such a value holds, and each function of the crate that the library
//! calls is given here a statement of what it returns in those terms. Verus
//! believes these statements; none of them is proved.

use vstd::prelude::*;

verus! {

/// `toml::Value`, a TOML value. Nothing is said of what is inside.
#[verifier::external_type_specification]
#[verifier::external_body]
pub struct ExValue(toml::Value);

/// `toml::de::Error`, the report of a text that is no TOML document. Nothing
/// is said of what is inside.
#[verifier::external_type_specification]
#[verifier::external_body]
pub struct ExParseError(toml::de::Error);

/// What a TOML value holds. Of a float and of a date only the kind is kept:
/// nothing here reads them.
pub enum Toml {
    String(Seq<char>),
    Integer(i64),
    Float,
    Boolean(bool),
    Datetime,
    Array(Seq<Toml>),
    Table(Map<Seq<char>, Toml>),
}

impl Toml {
    /// The value under `key`, where this value is a table that has the key.
    pub open spec fn get(self, key: Seq<char>) -> Option<Toml> {
        match self {
            Toml::Table(entries) => if entries.contains_key(key) {
                Some(entries[key])
            } else {
                None
            },
            _ => None,
        }
    }

    /// The value under `label` in the table under `section`.
    pub open spec fn get_in(self, section: Seq<char>, label: Seq<char>) -> Option<Toml> {
        match self.get(section) {
            Some(table) => table.get(label),
            None => None,
        }
    }
}

/// What the value `v` holds.
pub uninterp spec fn toml_data(v: toml::Value) -> Toml;

/// What `text` holds when read as a TOML document; `None` where it is not one.
pub uninterp spec fn toml_parse(text: Seq<char>) -> Option<Toml>;

/// `toml::Value::as_integer`: the number of an integer value, `None` for any
/// other kind.
pub assume_specification[ toml::Value::as_integer ](v: &toml::Value) -> (r: Option<i64>)
    ensures
        r == (match toml_data(*v) {
            Toml::Integer(i) => Some(i),
            _ => None,
        }),
;

/// `toml::Value::as_str`: the text of a string value, `None` for any other
/// kind.
pub assume_specification<'a>[ toml::Value::as_str ](v: &'a toml::Value) -> (r: Option<&'a str>)
    ensures
        match toml_data(*v) {
            Toml::String(s) => r matches Some(t) && t@ == s,
            _ => r is None,
        },
;

/// `toml::Value::as_array`: the items of an array value, each item holding
/// what the array holds at its place; `None` for any other kind.
pub assume_specification<'a>[ toml::Value::as_array ](v: &'a toml::Value) -> (r: Option<
    &'a Vec<toml::Value>,
>)
    ensures
        match toml_data(*v) {
            Toml::Array(items) => r matches Some(a) && a@.len() == items.len() && forall|i: int|
                0 <= i < items.len() ==> toml_data(#[trigger] a@[i]) == items[i],
            _ => r is None,
        },
;

/// `toml::Value::is_table`: whether the value is a table.
pub assume_specification[ toml::Value::is_table ](v: &toml::Value) -> (r: bool)
    ensures
        r == (toml_data(*v) is Table),
;

/// `Clone` of `toml::Value`, which the crate derives: the copy holds what the
/// value holds.
pub assume_specification[ <toml::Value as Clone>::clone ](v: &toml::Value) -> (r: toml::Value)
    ensures
        toml_data(r) == toml_data(*v),
;

/// `toml::Value::get` with a string index: the value under `key` where `v` is
/// a table that has the key, `None` where it is no table or lacks the key.
#[verifier::external_body]
pub(crate) fn value_get<'a>(v: &'a toml::Value, key: &str) -> (r: Option<&'a toml::Value>)
    ensures
        match r {
            Some(x) => toml_data(*v).get(key@) == Some(toml_data(*x)),
            None => toml_data(*v).get(key@) is None,
        },
{
    v.get(key)
}

/// `toml::from_str`, read as a `toml::Value`: the document that `text` holds,
/// or the crate's error where `text` is no TOML document. The same text gives
/// the same answer.
#[verifier::external_body]
pub(crate) fn parse_document(text: &str) -> (r: Result<toml::Value, toml::de::Error>)
    ensures
        match r {
            Ok(v) => toml_parse(text@) == Some(toml_data(v)),
            Err(_) => toml_parse(text@) is None,
        },
{
    toml::from_str(text)
}

} // verus!
