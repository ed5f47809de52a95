//! A configuration document as a tree of plain values.
//!
//! Documents are written in TOML and read by the `toml` crate; the tree
//! here holds what that crate found, value for value.

use vstd::prelude::*;
use vstd::string::*;

verus! {

/// One value of a configuration document. Tables keep their entries as
/// pairs of key and value; a floating-point number or a date is known to be
/// there, and no more.
#[derive(Debug, PartialEq)]
pub enum ConfigValue {
    Text(String),
    Integer(i64),
    Float,
    Boolean(bool),
    Datetime,
    Array(Vec<ConfigValue>),
    Table(Vec<(String, ConfigValue)>),
}

/// `toml::Value`, a value as the `toml` crate holds it; nothing is seen of
/// its inside.
#[verifier::external_type_specification]
#[verifier::external_body]
pub struct ExTomlValue(toml::Value);

/// `toml::de::Error`, the reason why a text was turned down; it is never
/// looked into.
#[verifier::external_type_specification]
#[verifier::external_body]
pub struct ExTomlError(toml::de::Error);

/// The document that the `toml` crate reads from `text`, a table at its
/// root, or `None` where the crate turns the text down.
pub uninterp spec fn toml_document(text: Seq<char>) -> Option<ConfigValue>;

/// What a value of the `toml` crate holds, as a tree: a string, an integer
/// or a boolean with its value, an array with the trees of its items in
/// their order, a table with its keys and the trees under them in the
/// order in which the table hands them out.
pub uninterp spec fn tree_of(value: toml::Value) -> ConfigValue;

/// Calls `toml::Table::from_str`, by way of `str::parse`, and wraps the
/// table as a value. Trusted: where the crate reads the text, what the
/// value holds is the document that `toml_document` names for the text;
/// where it reports an error, `toml_document` names none.
#[verifier::external_body]
fn parse_toml(text: &str) -> (parsed: Result<toml::Value, toml::de::Error>)
    ensures
        match parsed {
            Ok(value) => toml_document(text@) == Some(tree_of(value)),
            Err(_) => toml_document(text@) is None,
        },
{
    text.parse::<toml::Table>().map(toml::Value::Table)
}

/// Copies a value of the `toml` crate into a tree, variant for variant.
/// Trusted: the tree is what `tree_of` names for the value.
#[verifier::external_body]
fn lift(value: &toml::Value) -> (tree: ConfigValue)
    ensures
        tree == tree_of(*value),
{
    match value {
        toml::Value::String(text) => ConfigValue::Text(text.clone()),
        toml::Value::Integer(number) => ConfigValue::Integer(*number),
        toml::Value::Float(_) => ConfigValue::Float,
        toml::Value::Boolean(flag) => ConfigValue::Boolean(*flag),
        toml::Value::Datetime(_) => ConfigValue::Datetime,
        toml::Value::Array(items) => ConfigValue::Array(items.iter().map(lift).collect()),
        toml::Value::Table(table) => ConfigValue::Table(
            table.iter().map(|(key, item)| (key.clone(), lift(item))).collect(),
        ),
    }
}

/// Reads a document from its text.
pub fn parse_document(text: &str) -> (doc: Option<ConfigValue>)
    ensures
        doc == toml_document(text@),
{
    match parse_toml(text) {
        Ok(value) => Some(lift(&value)),
        Err(_) => None,
    }
}

/// The value of the first entry under `key`.
pub open spec fn entry_of(entries: Seq<(String, ConfigValue)>, key: Seq<char>) -> Option<
    ConfigValue,
>
    decreases entries.len(),
{
    if entries.len() == 0 {
        None
    } else if entries[0].0@ == key {
        Some(entries[0].1)
    } else {
        entry_of(entries.drop_first(), key)
    }
}

impl ConfigValue {
    /// The value under `key` where `self` is a table that has the key.
    pub open spec fn field(self, key: Seq<char>) -> Option<ConfigValue> {
        match self {
            ConfigValue::Table(entries) => entry_of(entries@, key),
            _ => None,
        }
    }

    /// The text under `key`, where there is a text under it.
    pub open spec fn text_field(self, key: Seq<char>) -> Option<Seq<char>> {
        match self.field(key) {
            Some(ConfigValue::Text(text)) => Some(text@),
            _ => None,
        }
    }

    /// Looks `key` up in a table.
    pub fn get(&self, key: &str) -> (found: Option<&ConfigValue>)
        ensures
            match found {
                Some(value) => self.field(key@) == Some(*value),
                None => self.field(key@) is None,
            },
    {
        match self {
            ConfigValue::Table(entries) => {
                let wanted = String::from_str(key);
                let mut i: usize = 0;
                assert(entries@.skip(0) =~= entries@);
                while i < entries.len()
                    invariant
                        i <= entries@.len(),
                        wanted@ == key@,
                        self.field(key@) == entry_of(entries@, key@),
                        entry_of(entries@, key@) == entry_of(entries@.skip(i as int), key@),
                    decreases entries@.len() - i,
                {
                    let entry = &entries[i];
                    proof {
                        let rest = entries@.skip(i as int);
                        assert(rest[0] == entries@[i as int]);
                        assert(rest.drop_first() =~= entries@.skip(i + 1));
                    }
                    if entry.0 == wanted {
                        return Some(&entry.1);
                    }
                    i = i + 1;
                }
                None
            },
            _ => None,
        }
    }
}

} // verus!
