//! The parts of `toml_edit` that the state file goes through, and the model in which
//! this library reads a TOML document: an ordered list of top-level entries, where an
//! entry is either a table (of which only integer fields matter here) or something else.

use vstd::prelude::*;
use toml_edit::{DocumentMut, Table, TomlError};

verus! {

#[verifier::external_type_specification]
#[verifier::external_body]
pub struct ExDocumentMut(DocumentMut);

#[verifier::external_type_specification]
#[verifier::external_body]
pub struct ExTable(Table);

#[verifier::external_type_specification]
#[verifier::external_body]
pub struct ExTomlError(TomlError);

/// A table's fields as this library reads them: each key that holds an item maps to
/// its integer value, or to `None` when the item is not an integer.
pub type Fields = Map<Seq<char>, Option<i64>>;

/// The root entries of a document, in the order of their slots.
pub type Entries = Seq<(Seq<char>, TomlEntry)>;

/// A top-level entry of a document as this library reads it.
pub enum TomlEntry {
    /// A placeholder slot without an item, skipped when the document is walked.
    Empty,
    /// A (non-inline) table, with its fields.
    Table(Fields),
    /// Any other item: a value, an inline table, an array of tables.
    Other,
}

/// What a `Table` holds.
pub uninterp spec fn table_fields(t: Table) -> Fields;

/// What a `DocumentMut` holds at its root, in the order of its key/item slots.
pub uninterp spec fn document_entries(d: DocumentMut) -> Entries;

/// The text that `Display` writes for a document.
pub uninterp spec fn document_text(d: DocumentMut) -> Seq<char>;

/// What parsing `text` as a TOML document gives: `None` when it is not valid TOML,
/// else the root entries of the document.
pub uninterp spec fn parse_toml(text: Seq<char>) -> Option<Entries>;

/// No two entries share a key, as in every table (its slots are an index map).
pub open spec fn keys_distinct(entries: Entries) -> bool {
    forall|i: int, j: int|
        0 <= i < entries.len() && 0 <= j < entries.len() && i != j ==> entries[i].0 != entries[j].0
}

/// The index of the entry with `key`, or -1.
pub open spec fn index_of_key(entries: Entries, key: Seq<char>) -> int
    decreases entries.len(),
{
    if entries.len() == 0 {
        -1
    } else if entries.last().0 == key {
        entries.len() - 1
    } else {
        index_of_key(entries.drop_last(), key)
    }
}

/// `entries` with the item under `key` replaced in its slot by `entry`, or with
/// `(key, entry)` appended when no slot has that key.
pub open spec fn upsert(entries: Entries, key: Seq<char>, entry: TomlEntry) -> Entries {
    let i = index_of_key(entries, key);
    if i >= 0 {
        entries.update(i, (key, entry))
    } else {
        entries.push((key, entry))
    }
}

/// The entries that hold an item, in order: what walking the document yields.
pub open spec fn visible_entries(entries: Entries) -> Entries
    decreases entries.len(),
{
    if entries.len() == 0 {
        entries
    } else {
        let rest = visible_entries(entries.drop_last());
        if entries.last().1 is Empty {
            rest
        } else {
            rest.push(entries.last())
        }
    }
}

/// `Table::new`: an empty table.
#[verifier::external_body]
pub(crate) fn new_table() -> (table: Table)
    ensures
        table_fields(table) == Fields::empty(),
{
    Table::new()
}

/// `Table::insert` of the integer item that `toml_edit::value` makes of `v`: the key
/// then holds that integer.
#[verifier::external_body]
pub(crate) fn table_insert_integer(t: &mut Table, key: &str, v: i64)
    ensures
        table_fields(*final(t)) == table_fields(*old(t)).insert(key@, Some(v)),
{
    t.insert(key, toml_edit::value(v));
}

/// `Table::get` followed by `Item::as_integer`: the integer under `key`, or `None`
/// when there is no item there or it is not an integer.
#[verifier::external_body]
pub(crate) fn table_get_integer(t: &Table, key: &str) -> (r: Option<i64>)
    ensures
        r == (if table_fields(*t).contains_key(key@) { table_fields(*t)[key@] } else { None }),
{
    match t.get(key) {
        Some(item) => item.as_integer(),
        None => None,
    }
}

/// `DocumentMut::new`: a document without entries.
#[verifier::external_body]
pub(crate) fn new_document() -> (d: DocumentMut)
    ensures
        document_entries(d) == Entries::empty(),
{
    DocumentMut::new()
}

/// `Table::set_implicit(true)` on the root table: changes how the root is written, not
/// what it holds.
#[verifier::external_body]
pub(crate) fn set_root_implicit(d: &mut DocumentMut)
    ensures
        document_entries(*final(d)) == document_entries(*old(d)),
{
    d.as_table_mut().set_implicit(true);
}

/// `IndexMut<&str>` on a document, assigned `Item::Table(t)`: the slot of `key` is
/// taken (or appended when there is none) and then holds the table.
#[verifier::external_body]
pub(crate) fn document_insert_table(d: &mut DocumentMut, key: &str, t: Table)
    ensures
        document_entries(*final(d)) == upsert(document_entries(*old(d)), key@, TomlEntry::Table(table_fields(t))),
{
    d[key] = toml_edit::Item::Table(t);
}

/// `Table::iter` on the root, each item handed out as its key and, when it is a table
/// (`Item::as_table`), a copy of that table.
#[verifier::external_body]
pub(crate) fn document_tables(d: &DocumentMut) -> (r: Vec<(String, Option<Table>)>)
    ensures
        r@.len() == visible_entries(document_entries(*d)).len(),
        forall|i: int| #![trigger r@[i]] 0 <= i < r@.len() ==> {
            let e = visible_entries(document_entries(*d))[i];
            &&& r@[i].0@ == e.0
            &&& (r@[i].1 is Some <==> e.1 is Table)
            &&& (r@[i].1 matches Some(t) ==> e.1 == TomlEntry::Table(table_fields(t)))
        },
{
    d.iter().map(|(k, item)| (k.to_string(), item.as_table().cloned())).collect()
}

/// `str::parse::<DocumentMut>`: `Ok` exactly when `text` is valid TOML; the document
/// then holds what `parse_toml` names, and (as in any table, whose slots
/// are an index map) no two of its entries share a key.
#[verifier::external_body]
pub(crate) fn parse_document(text: &str) -> (r: Result<DocumentMut, TomlError>)
    ensures
        r is Ok <==> parse_toml(text@) is Some,
        r matches Ok(d) ==> document_entries(d) == parse_toml(text@).unwrap(),
        r matches Ok(d) ==> keys_distinct(document_entries(d)),
{
    text.parse::<DocumentMut>()
}

/// `Display` for a document (`to_string`).
#[verifier::external_body]
pub(crate) fn render_document(d: &DocumentMut) -> (r: String)
    ensures
        r@ == document_text(*d),
{
    d.to_string()
}

/// `Display` for a parse error: the message, whose text is left unstated.
#[verifier::external_body]
pub(crate) fn toml_error_message(e: &TomlError) -> String {
    e.to_string()
}

} // verus!
