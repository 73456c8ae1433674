//! TOML documents as the lookups read them.
//!
//! The documents are parsed and held by the `toml` crate. Of a value the
//! lookups read three things: whether it is a table, and then what stands in
//! it; whether it is a string, and then which; and else of which type it is.
//! [`Node`] is a value with just that much in it, and [`Item`] is the same of
//! a value that a table of the `toml` crate holds.

use vstd::prelude::*;

verus! {

/// `toml::map::Map`, the type of a TOML table.
#[verifier::external_type_specification]
#[verifier::external_body]
#[verifier::reject_recursive_types(K)]
#[verifier::reject_recursive_types(V)]
pub struct ExTomlMap<K, V>(toml::map::Map<K, V>);

/// `toml::Value`, what a table of the `toml` crate holds under a key.
#[verifier::external_type_specification]
#[verifier::external_body]
pub struct ExTomlValue(toml::Value);

/// `toml::de::Error`, the parser's account of a text that is not TOML.
#[verifier::external_type_specification]
#[verifier::external_body]
pub struct ExTomlError(toml::de::Error);

/// The TOML type of a value.
#[derive(Clone, Copy, Debug, PartialEq, Eq)]
pub enum Kind {
    String,
    Integer,
    Float,
    Boolean,
    Datetime,
    Array,
    Table,
}

/// A TOML value as the lookups see it: a string with its characters, a table
/// with the value under each key, and of any other value its type alone.
pub enum Node {
    String(Seq<char>),
    Integer,
    Float,
    Boolean,
    Datetime,
    Array,
    Table(Map<Seq<char>, Node>),
}

impl Node {
    /// The TOML type of the value.
    pub open spec fn kind(self) -> Kind {
        match self {
            Node::String(_) => Kind::String,
            Node::Integer => Kind::Integer,
            Node::Float => Kind::Float,
            Node::Boolean => Kind::Boolean,
            Node::Datetime => Kind::Datetime,
            Node::Array => Kind::Array,
            Node::Table(_) => Kind::Table,
        }
    }
}

/// What a table holds: the value under each of its keys.
pub uninterp spec fn table_nodes(table: toml::Table) -> Map<Seq<char>, Node>;

/// The table that a text denotes as a TOML document; `None` for a text that
/// the parser refuses.
pub uninterp spec fn toml_document(text: Seq<char>) -> Option<Map<Seq<char>, Node>>;

/// A value as a lookup finds it in a table: a string with its text, a table
/// as the table that it is, and of any other value the type alone, since no
/// lookup resolves to it.
#[derive(Clone, Copy, Debug, PartialEq)]
pub enum Item<'a> {
    String(&'a str),
    Integer,
    Float,
    Boolean,
    Datetime,
    Array,
    Table(&'a toml::Table),
}

impl<'a> View for Item<'a> {
    type V = Node;

    open spec fn view(&self) -> Node {
        match self {
            Item::String(text) => Node::String(text@),
            Item::Integer => Node::Integer,
            Item::Float => Node::Float,
            Item::Boolean => Node::Boolean,
            Item::Datetime => Node::Datetime,
            Item::Array => Node::Array,
            Item::Table(table) => Node::Table(table_nodes(**table)),
        }
    }
}

impl<'a> Item<'a> {
    /// The TOML type of the value.
    pub fn kind(&self) -> (out: Kind)
        ensures
            out == self@.kind(),
    {
        match self {
            Item::String(_) => Kind::String,
            Item::Integer => Kind::Integer,
            Item::Float => Kind::Float,
            Item::Boolean => Kind::Boolean,
            Item::Datetime => Kind::Datetime,
            Item::Array => Kind::Array,
            Item::Table(_) => Kind::Table,
        }
    }
}

/// `toml::from_str`, asked for a table: the document that the text denotes,
/// or the parser's error where it denotes none. The parser looks at the text
/// and at nothing else.
#[verifier::external_body]
pub(crate) fn parse_toml(text: &str) -> (out: Result<toml::Table, toml::de::Error>)
    ensures
        match out {
            Ok(table) => toml_document(text@) == Some(table_nodes(table)),
            Err(_) => toml_document(text@) is None,
        },
{
    toml::from_str(text)
}

/// `toml::map::Map::remove`: the value under the key, if there is one, leaves
/// the table, and the other keys keep their values. A table is handed out as
/// it is, and of any other value its type.
#[verifier::external_body]
pub(crate) fn retrieve_table(table: &mut toml::Table, key: &str) -> (out: Option<
    Result<toml::Table, Kind>,
>)
    ensures
        table_nodes(*final(table)) == table_nodes(*old(table)).remove(key@),
        out is Some == table_nodes(*old(table)).contains_key(key@),
        match out {
            Some(Ok(inner)) => table_nodes(*old(table))[key@] == Node::Table(table_nodes(inner)),
            Some(Err(kind)) => kind != Kind::Table && kind == table_nodes(*old(table))[key@].kind(),
            None => true,
        },
{
    table.remove(key).map(|value| match value {
        toml::Value::String(_) => Err(Kind::String),
        toml::Value::Integer(_) => Err(Kind::Integer),
        toml::Value::Float(_) => Err(Kind::Float),
        toml::Value::Boolean(_) => Err(Kind::Boolean),
        toml::Value::Datetime(_) => Err(Kind::Datetime),
        toml::Value::Array(_) => Err(Kind::Array),
        toml::Value::Table(inner) => Ok(inner),
    })
}

/// `toml::map::Map::get`: the value under the key, if there is one; the
/// table is left as it is.
#[verifier::external_body]
pub(crate) fn find_entry<'a>(table: &'a toml::Table, key: &str) -> (out: Option<Item<'a>>)
    ensures
        out is Some == table_nodes(*table).contains_key(key@),
        out matches Some(item) ==> item@ == table_nodes(*table)[key@],
{
    table.get(key).map(|value| match value {
        toml::Value::String(text) => Item::String(text),
        toml::Value::Integer(_) => Item::Integer,
        toml::Value::Float(_) => Item::Float,
        toml::Value::Boolean(_) => Item::Boolean,
        toml::Value::Datetime(_) => Item::Datetime,
        toml::Value::Array(_) => Item::Array,
        toml::Value::Table(inner) => Item::Table(inner),
    })
}

} // verus!
