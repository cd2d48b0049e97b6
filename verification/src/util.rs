//! Reading configuration documents and finding the directory that holds
//! one.

use vstd::prelude::*;
use vstd::string::*;
use crate::text::str_eq;

verus! {

/// `toml::Value`: a parsed TOML value, handed on unread.
#[verifier::external_type_specification]
#[verifier::external_body]
pub struct ExValue(toml::Value);

/// `toml::de::Error`: the error of the TOML parser, handed on unread.
#[verifier::external_type_specification]
#[verifier::external_body]
pub struct ExTomlError(toml::de::Error);

/// A value of a configuration document, as far as lookups read it.
#[derive(Debug, PartialEq, Eq)]
pub enum Item {
    /// A string.
    Text(String),
    /// A table: its keys, each with its value.
    Table(Vec<(String, Item)>),
    /// A number, a boolean, a date or an array.
    Other,
}

/// What the TOML parser makes of `text`: the document's root table, or
/// nothing where `text` is not a TOML document.
pub uninterp spec fn parsed_document(text: Seq<char>) -> Option<Item>;

/// What a parsed TOML value holds.
pub uninterp spec fn value_item(value: toml::Value) -> Item;

/// `toml::from_str`, asked for a `toml::Value`: the parsed document, or the
/// parser's error. The result is the one that `parsed_document` names.
#[verifier::external_body]
fn document_value(text: &str) -> (result: Result<toml::Value, toml::de::Error>)
    ensures
        match result {
            Ok(value) => parsed_document(text@) == Some(value_item(value)),
            Err(_) => parsed_document(text@) is None,
        },
{
    toml::from_str::<toml::Value>(text)
}

/// Turns a `toml::Value` into an [`Item`], variant by variant: a string
/// into `Text`, a table into `Table` with the entries that
/// `toml::map::Map::iter` yields, anything else into `Other`.
#[verifier::external_body]
fn item_of_value(value: &toml::Value) -> (item: Item)
    ensures
        item == value_item(*value),
{
    match value {
        toml::Value::String(text) => Item::Text(text.clone()),
        toml::Value::Table(table) => Item::Table(
            table.iter().map(|(key, entry)| (key.clone(), item_of_value(entry))).collect(),
        ),
        toml::Value::Integer(_) => Item::Other,
        toml::Value::Float(_) => Item::Other,
        toml::Value::Boolean(_) => Item::Other,
        toml::Value::Datetime(_) => Item::Other,
        toml::Value::Array(_) => Item::Other,
    }
}

/// The message of a `toml::de::Error`, as its `Display` gives it.
#[verifier::external_body]
fn error_message(error: &toml::de::Error) -> (message: String) {
    error.to_string()
}

/// Why a configuration document cannot be read.
#[derive(Debug, PartialEq, Eq)]
pub enum ParseError {
    /// The text is not a TOML document; the message is the parser's.
    Syntax(String),
}

impl ParseError {
    /// What the user is told: the parser's message.
    pub fn message(&self) -> (text: String)
        ensures
            self matches ParseError::Syntax(cause) && text@ == cause@,
    {
        match self {
            ParseError::Syntax(cause) => cause.clone(),
        }
    }
}

/// The value under `key` among the entries of a table: that of the first
/// entry with this key.
pub open spec fn entry_of(entries: Seq<(String, Item)>, key: Seq<char>) -> Option<Item>
    decreases entries.len(),
{
    if entries.len() == 0 {
        None
    } else if entries[0].0@ == key {
        Some(entries[0].1)
    } else {
        entry_of(entries.drop_first(), key)
    }
}

/// The value under `key` among the entries of a table.
fn find_entry<'a>(entries: &'a Vec<(String, Item)>, key: &str) -> (found: Option<&'a Item>)
    ensures
        match found {
            Some(item) => entry_of(entries@, key@) == Some(*item),
            None => entry_of(entries@, key@) is None,
        },
{
    let mut i: usize = 0;
    assert(entries@.skip(0) =~= entries@);
    while i < entries.len()
        invariant
            i <= entries.len(),
            entry_of(entries@, key@) == entry_of(entries@.skip(i as int), key@),
        decreases entries.len() - i,
    {
        assert(entries@.skip(i as int)[0] == entries@[i as int]);
        assert(entries@.skip(i as int).drop_first() =~= entries@.skip(i + 1));
        if str_eq(entries[i].0.as_str(), key) {
            return Some(&entries[i].1);
        }
        i += 1;
    }
    assert(entries@.skip(i as int).len() == 0);
    None
}

impl Item {
    /// The value under `key`, where this is a table that has the key.
    pub open spec fn spec_get(self, key: Seq<char>) -> Option<Item> {
        match self {
            Item::Table(entries) => entry_of(entries@, key),
            _ => None,
        }
    }

    /// The characters of this value, where it is a string.
    pub open spec fn spec_as_str(self) -> Option<Seq<char>> {
        match self {
            Item::Text(text) => Some(text@),
            _ => None,
        }
    }

    /// The string at `table.key` of a document.
    pub open spec fn text_at(self, table: Seq<char>, key: Seq<char>) -> Option<Seq<char>> {
        match self.spec_get(table) {
            Some(inner) => match inner.spec_get(key) {
                Some(value) => value.spec_as_str(),
                None => None,
            },
            None => None,
        }
    }

    /// The value under `key`, where this is a table that has the key.
    pub fn get(&self, key: &str) -> (found: Option<&Item>)
        ensures
            match found {
                Some(item) => self.spec_get(key@) == Some(*item),
                None => self.spec_get(key@) is None,
            },
    {
        match self {
            Item::Table(entries) => find_entry(entries, key),
            _ => None,
        }
    }

    /// The string at `table.key` of a document.
    pub fn string_at(&self, table: &str, key: &str) -> (text: Option<&str>)
        ensures
            match text {
                Some(t) => self.text_at(table@, key@) == Some(t@),
                None => self.text_at(table@, key@) is None,
            },
    {
        match self.get(table) {
            Some(inner) => match inner.get(key) {
                Some(value) => value.as_str(),
                None => None,
            },
            None => None,
        }
    }

    /// The characters of this value, where it is a string.
    pub fn as_str(&self) -> (text: Option<&str>)
        ensures
            match text {
                Some(t) => self.spec_as_str() == Some(t@),
                None => self.spec_as_str() is None,
            },
    {
        match self {
            Item::Text(text) => Some(text.as_str()),
            _ => None,
        }
    }
}

/// Reads a TOML document. Succeeds exactly where the parser accepts
/// `text`, with the document that it makes of it.
pub fn parse(text: &str) -> (result: Result<Item, ParseError>)
    ensures
        match result {
            Ok(document) => parsed_document(text@) == Some(document),
            Err(_) => parsed_document(text@) is None,
        },
{
    match document_value(text) {
        Ok(value) => Ok(item_of_value(&value)),
        Err(error) => Err(ParseError::Syntax(error_message(&error))),
    }
}

/// The place, among `probes`, of the first directory that holds the file
/// looked for. The probes are a directory and its ancestors, nearest
/// first, each with whether the file was found in it.
pub open spec fn first_present(probes: Seq<(String, bool)>) -> Option<int>
    decreases probes.len(),
{
    if probes.len() == 0 {
        None
    } else if probes[0].1 {
        Some(0)
    } else {
        match first_present(probes.drop_first()) {
            Some(i) => Some(i + 1),
            None => None,
        }
    }
}

/// Searches a directory and its ancestors for a file: the nearest
/// directory that holds it, if any does.
pub fn search(probes: &Vec<(String, bool)>) -> (found: Option<&str>)
    ensures
        match found {
            Some(dir) => first_present(probes@) matches Some(i) && 0 <= i < probes.len()
                && probes[i].0@ == dir@,
            None => first_present(probes@) is None,
        },
{
    let mut i: usize = 0;
    assert(probes@.skip(0) =~= probes@);
    while i < probes.len()
        invariant
            i <= probes.len(),
            first_present(probes@) == match first_present(probes@.skip(i as int)) {
                Some(k) => Some(k + i),
                None => None,
            },
        decreases probes.len() - i,
    {
        assert(probes@.skip(i as int)[0] == probes@[i as int]);
        assert(probes@.skip(i as int).drop_first() =~= probes@.skip(i + 1));
        if probes[i].1 {
            return Some(probes[i].0.as_str());
        }
        i += 1;
    }
    assert(probes@.skip(i as int).len() == 0);
    None
}

/// The first directory that holds the file is the only one before which
/// none holds it.
pub proof fn lemma_first_present(probes: Seq<(String, bool)>)
    ensures
        match first_present(probes) {
            Some(i) => 0 <= i < probes.len() && probes[i].1 && forall|k: int|
                0 <= k < i ==> !probes[k].1,
            None => forall|k: int| 0 <= k < probes.len() ==> !probes[k].1,
        },
    decreases probes.len(),
{
    if probes.len() > 0 && !probes[0].1 {
        let rest = probes.drop_first();
        lemma_first_present(rest);
        match first_present(rest) {
            Some(i) => {
                assert(rest[i] == probes[i + 1]);
                assert forall|k: int| 0 <= k < i + 1 implies !probes[k].1 by {
                    if k > 0 {
                        assert(rest[k - 1] == probes[k]);
                    }
                }
            },
            None => {
                assert forall|k: int| 0 <= k < probes.len() implies !probes[k].1 by {
                    if k > 0 {
                        assert(rest[k - 1] == probes[k]);
                    }
                }
            },
        }
    }
}

} // verus!
