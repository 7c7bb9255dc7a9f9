//! TOML documents that keep their comments and their layout, as the crate `toml_edit` holds them.

use vstd::prelude::*;

use toml_edit::{ArrayOfTables, Decor, DocumentMut, Item, Key, Table, TomlError, Value};

use crate::text;

verus! {

// ---- The types ---------------------------------------------------------------------------------

/// A document.
#[verifier::external_type_specification]
#[verifier::external_body]
pub struct ExDocumentMut(toml_edit::DocumentMut);

/// A table: keys with their items, under a header.
#[verifier::external_type_specification]
#[verifier::external_body]
pub struct ExTable(toml_edit::Table);

/// Tables under headers of the same name.
#[verifier::external_type_specification]
#[verifier::external_body]
pub struct ExArrayOfTables(toml_edit::ArrayOfTables);

/// A key, with the text around it.
#[verifier::external_type_specification]
#[verifier::external_body]
pub struct ExKey(toml_edit::Key);

/// A value, with the text around it.
#[verifier::external_type_specification]
#[verifier::external_body]
pub struct ExValue(toml_edit::Value);

/// The text before and behind a value, a key or a header.
#[verifier::external_type_specification]
#[verifier::external_body]
pub struct ExDecor(toml_edit::Decor);

/// Why a text is no document.
#[verifier::external_type_specification]
#[verifier::external_body]
pub struct ExTomlError(toml_edit::TomlError);

/// What stands behind a key of a document, or in an array of tables.
pub enum ItemView {
    /// Nothing.
    Empty,
    /// A value.
    Value(Value),
    /// A table.
    Table(Table),
    /// An array of tables.
    Rows(Seq<ItemView>),
}

// ---- What documents, tables and values hold ----------------------------------------------------

/// What a document has at its root, which is a table unless something else was put there.
pub uninterp spec fn root_of(doc: DocumentMut) -> ItemView;

/// The text behind the last element of a document.
pub uninterp spec fn ending_of(doc: DocumentMut) -> Seq<char>;

/// The keys of a table with their items, in order.
pub uninterp spec fn cells_in(table: Table) -> Seq<(Key, ItemView)>;

/// The text around the header of a table.
pub uninterp spec fn header_of(table: Table) -> Decor;

/// The items of an array of tables, in order.
pub uninterp spec fn rows_in(rows: ArrayOfTables) -> Seq<ItemView>;

/// The name of a key, without quotes and escapes.
pub uninterp spec fn key_text(key: Key) -> Seq<char>;

/// The string that a value is, if it is one.
pub uninterp spec fn value_text(value: Value) -> Option<Seq<char>>;

/// The text around a value.
pub uninterp spec fn value_decor(value: Value) -> Decor;

/// The value that is made of a string: that string, written in the usual way, with no text of its own
/// around it.
pub uninterp spec fn toml_string(text: Seq<char>) -> Value;

/// A value with another text around it.
pub uninterp spec fn value_decorated(value: Value, decor: Decor) -> Value;

/// The document that a text writes, or why it writes none.
pub uninterp spec fn toml_document(text: Seq<char>) -> Result<DocumentMut, TomlError>;

/// The text of an error.
pub uninterp spec fn toml_error_text(error: TomlError) -> Seq<char>;

/// The text that a document is written as.
pub uninterp spec fn document_text(doc: DocumentMut) -> Seq<char>;

/// The position of the first cell with this key, or the length if there is none.
pub open spec fn cell_position(cells: Seq<(Key, ItemView)>, key: Seq<char>) -> int
    decreases cells.len(),
{
    if cells.len() == 0 || key_text(cells[0].0) == key {
        0
    } else {
        1 + cell_position(cells.drop_first(), key)
    }
}

/// One of the cells has this key.
pub open spec fn has_cell(cells: Seq<(Key, ItemView)>, key: Seq<char>) -> bool {
    cell_position(cells, key) < cells.len()
}

/// The item behind a key.
pub open spec fn cell_item(cells: Seq<(Key, ItemView)>, key: Seq<char>) -> ItemView {
    if has_cell(cells, key) {
        cells[cell_position(cells, key)].1
    } else {
        ItemView::Empty
    }
}

/// The string behind a key, if there is one.
pub open spec fn cell_text(cells: Seq<(Key, ItemView)>, key: Seq<char>) -> Option<Seq<char>> {
    match cell_item(cells, key) {
        ItemView::Value(v) => value_text(v),
        _ => None,
    }
}

/// The cells without the one of a key, the others in their order.
pub open spec fn cells_without(cells: Seq<(Key, ItemView)>, key: Seq<char>) -> Seq<
    (Key, ItemView),
> {
    if has_cell(cells, key) {
        cells.remove(cell_position(cells, key))
    } else {
        cells
    }
}

/// The cells after an item was put behind a key: the key that was there stays as it is written, and
/// a new one comes last.
pub open spec fn cell_replaced(
    before: Seq<(Key, ItemView)>,
    after: Seq<(Key, ItemView)>,
    key: Seq<char>,
    item: ItemView,
) -> bool {
    let i = cell_position(before, key);
    if has_cell(before, key) {
        after == before.update(i, (before[i].0, item))
    } else {
        &&& after.len() == before.len() + 1
        &&& after.drop_last() == before
        &&& key_text(after.last().0) == key
        &&& after.last().1 == item
    }
}

/// The cells of the table at the root of a document.
pub open spec fn root_cells(doc: DocumentMut) -> Seq<(Key, ItemView)> {
    match root_of(doc) {
        ItemView::Table(t) => cells_in(t),
        _ => Seq::empty(),
    }
}

/// The text around the root table of a document.
pub open spec fn root_header(doc: DocumentMut) -> Option<Decor> {
    match root_of(doc) {
        ItemView::Table(t) => Some(header_of(t)),
        _ => None,
    }
}

/// The table at a position among rows, if a table is there.
pub open spec fn table_at(rows: Seq<ItemView>, i: int) -> Option<Table> {
    if 0 <= i < rows.len() {
        match rows[i] {
            ItemView::Table(t) => Some(t),
            _ => None,
        }
    } else {
        None
    }
}

/// The table that an optional reference refers to.
pub open spec fn opt_table(o: Option<&Table>) -> Option<Table> {
    match o {
        Some(t) => Some(*t),
        None => None,
    }
}

/// The rows that an item is, or none.
pub open spec fn item_rows(item: ItemView) -> Seq<ItemView> {
    match item {
        ItemView::Rows(rows) => rows,
        _ => Seq::empty(),
    }
}

// ---- Documents ---------------------------------------------------------------------------------

/// Calls `DocumentMut::new`, which makes a document whose root is a table without cells, with no
/// text behind it.
#[verifier::external_body]
pub(crate) fn doc_new() -> (r: DocumentMut)
    ensures
        root_of(r) is Table,
        root_cells(r) == Seq::<(Key, ItemView)>::empty(),
        ending_of(r) == Seq::<char>::empty(),
{
    DocumentMut::new()
}

/// Parses a text as a `DocumentMut`. The result depends on the text alone, and the root of a
/// document that was parsed is a table. Which texts are documents is left to the TOML grammar.
#[verifier::external_body]
pub(crate) fn doc_parse(text: &str) -> (r: Result<DocumentMut, TomlError>)
    ensures
        r == toml_document(text@),
        r matches Ok(doc) ==> root_of(doc) is Table,
{
    text.parse::<DocumentMut>()
}

/// Calls `to_string` on a `TomlError`. The text depends on the error alone.
#[verifier::external_body]
pub(crate) fn error_to_string(error: &TomlError) -> (r: String)
    ensures
        r@ == toml_error_text(*error),
{
    error.to_string()
}

/// Calls `to_string` on a `DocumentMut`. The text depends on the document alone. It panics if the root
/// is no table.
#[verifier::external_body]
pub(crate) fn doc_to_string(doc: &DocumentMut) -> (r: String)
    requires
        root_of(*doc) is Table,
    ensures
        r@ == document_text(*doc),
{
    doc.to_string()
}

/// Calls `Table::entry` and `Entry::or_insert` on the root table, with an array of tables without
/// rows to insert, and then `Item::as_array_of_tables_mut`. It gives access to the array of tables
/// behind the key, which is inserted if the key is not there, or `None` if something else is there.
/// What is written there becomes the item of the key; the rest of the document stays. The document is
/// the same if the array was there and is left as it was, or if something else is there.
#[verifier::external_body]
pub(crate) fn doc_rows_or_new<'a>(doc: &'a mut DocumentMut, key: &str) -> (r: Option<
    &'a mut ArrayOfTables,
>)
    requires
        root_of(*old(doc)) is Table,
    ensures
        root_of(*final(doc)) is Table,
        ending_of(*final(doc)) == ending_of(*old(doc)),
        root_header(*final(doc)) == root_header(*old(doc)),
        r is None <==> has_cell(root_cells(*old(doc)), key@) && !(cell_item(
            root_cells(*old(doc)),
            key@,
        ) is Rows),
        r is None ==> *final(doc) == *old(doc),
        r matches Some(a) ==> rows_in(*a) == item_rows(cell_item(root_cells(*old(doc)), key@))
            && cell_replaced(
            root_cells(*old(doc)),
            root_cells(*final(doc)),
            key@,
            ItemView::Rows(rows_in(*final(a))),
        ),
        r matches Some(a) ==> cell_item(root_cells(*old(doc)), key@) is Rows && *final(a) == *a
            ==> *final(doc) == *old(doc),
{
    doc.as_table_mut()
        .entry(key)
        .or_insert(Item::ArrayOfTables(ArrayOfTables::new()))
        .as_array_of_tables_mut()
}

/// Calls `Table::get_mut` on the root table and then `Item::as_array_of_tables_mut`. It gives
/// access to the array of tables behind the key, or `None` if there is none. What is written there
/// becomes the item of the key; the rest of the document stays. The document is the same if there is
/// no array or it is left as it was.
#[verifier::external_body]
pub(crate) fn doc_rows_mut<'a>(doc: &'a mut DocumentMut, key: &str) -> (r: Option<
    &'a mut ArrayOfTables,
>)
    requires
        root_of(*old(doc)) is Table,
    ensures
        root_of(*final(doc)) is Table,
        ending_of(*final(doc)) == ending_of(*old(doc)),
        root_header(*final(doc)) == root_header(*old(doc)),
        r is Some <==> cell_item(root_cells(*old(doc)), key@) is Rows,
        r is None ==> *final(doc) == *old(doc),
        r matches Some(a) ==> rows_in(*a) == item_rows(cell_item(root_cells(*old(doc)), key@))
            && cell_replaced(
            root_cells(*old(doc)),
            root_cells(*final(doc)),
            key@,
            ItemView::Rows(rows_in(*final(a))),
        ),
        r matches Some(a) ==> *final(a) == *a ==> *final(doc) == *old(doc),
{
    doc.as_table_mut().get_mut(key).and_then(Item::as_array_of_tables_mut)
}

// ---- Arrays of tables --------------------------------------------------------------------------

/// Calls `ArrayOfTables::len`, which gives the number of items.
#[verifier::external_body]
pub(crate) fn rows_len(rows: &ArrayOfTables) -> (r: usize)
    ensures
        r == rows_in(*rows).len(),
{
    rows.len()
}

/// Calls `ArrayOfTables::get`, which gives the table at a position, or `None` if no table is there.
#[verifier::external_body]
pub(crate) fn rows_get(rows: &ArrayOfTables, index: usize) -> (r: Option<&Table>)
    ensures
        opt_table(r) == table_at(rows_in(*rows), index as int),
{
    rows.get(index)
}

/// Calls `ArrayOfTables::get_mut`, which gives access to the table at a position, or `None` if no
/// table is there. What is written there becomes the table at that position; the others stay. The
/// array is the same if the table is left as it was.
#[verifier::external_body]
pub(crate) fn rows_get_mut(rows: &mut ArrayOfTables, index: usize) -> (r: Option<&mut Table>)
    ensures
        r is Some <==> table_at(rows_in(*old(rows)), index as int) is Some,
        r matches Some(t) ==> table_at(rows_in(*old(rows)), index as int) == Some(*t) && rows_in(
            *final(rows),
        ) == rows_in(*old(rows)).update(index as int, ItemView::Table(*final(t))),
        r is None ==> rows_in(*final(rows)) == rows_in(*old(rows)),
        r matches Some(t) ==> *final(t) == *t ==> *final(rows) == *old(rows),
{
    rows.get_mut(index)
}

/// Calls `ArrayOfTables::push`, which puts a table behind the others.
#[verifier::external_body]
pub(crate) fn rows_push(rows: &mut ArrayOfTables, table: Table)
    ensures
        rows_in(*final(rows)) == rows_in(*old(rows)).push(ItemView::Table(table)),
{
    rows.push(table)
}

/// Calls `ArrayOfTables::remove`, which takes out the item at a position. It panics if there is
/// none.
#[verifier::external_body]
pub(crate) fn rows_remove(rows: &mut ArrayOfTables, index: usize)
    requires
        index < rows_in(*old(rows)).len(),
    ensures
        rows_in(*final(rows)) == rows_in(*old(rows)).remove(index as int),
{
    rows.remove(index)
}

// ---- Tables --------------------------------------------------------------------------------------

/// Calls `Table::new`, which makes a table without cells.
#[verifier::external_body]
pub(crate) fn table_new() -> (r: Table)
    ensures
        cells_in(r) == Seq::<(Key, ItemView)>::empty(),
{
    Table::new()
}

/// Calls `Table::get` and then `Item::as_str`, which give the string behind a key, if there is one.
#[verifier::external_body]
pub(crate) fn table_text<'a>(table: &'a Table, key: &str) -> (r: Option<&'a str>)
    ensures
        text::opt_str(r) == cell_text(cells_in(*table), key@),
{
    table.get(key).and_then(Item::as_str)
}

/// Calls `Table::get_mut` and then `Item::as_value_mut`, which give access to the value behind a
/// key, or `None` if no value is there. What is written there becomes the value of the key; the
/// other cells and the header stay. The table is the same if the value is left as it was.
#[verifier::external_body]
pub(crate) fn table_value_mut<'a>(table: &'a mut Table, key: &str) -> (r: Option<&'a mut Value>)
    ensures
        header_of(*final(table)) == header_of(*old(table)),
        r is Some <==> cell_item(cells_in(*old(table)), key@) is Value,
        r is None ==> cells_in(*final(table)) == cells_in(*old(table)),
        r matches Some(v) ==> cell_item(cells_in(*old(table)), key@) == ItemView::Value(*v)
            && cell_replaced(
            cells_in(*old(table)),
            cells_in(*final(table)),
            key@,
            ItemView::Value(*final(v)),
        ),
        r matches Some(v) ==> *final(v) == *v ==> *final(table) == *old(table),
{
    table.get_mut(key).and_then(Item::as_value_mut)
}

/// Assigns to a key of a `Table` by its index. The item of the key becomes the given value, and a
/// new key comes last; the other cells and the header stay.
#[verifier::external_body]
pub(crate) fn table_assign(table: &mut Table, key: &str, value: Value)
    ensures
        header_of(*final(table)) == header_of(*old(table)),
        cell_replaced(
            cells_in(*old(table)),
            cells_in(*final(table)),
            key@,
            ItemView::Value(value),
        ),
        key_text(
            cells_in(*final(table))[cell_position(cells_in(*old(table)), key@)].0,
        ) == key@,
{
    table[key] = toml_edit::value(value);
}

/// Calls `Table::remove`, which takes out the cell of a key, so that no cell has the key. The other
/// cells and the header stay. The table is the same if it had no such cell.
#[verifier::external_body]
pub(crate) fn table_remove(table: &mut Table, key: &str)
    ensures
        header_of(*final(table)) == header_of(*old(table)),
        cells_in(*final(table)) == cells_without(cells_in(*old(table)), key@),
        !has_cell(cells_in(*final(table)), key@),
        !has_cell(cells_in(*old(table)), key@) ==> *final(table) == *old(table),
{
    let _ = table.remove(key);
}

// ---- Values ----------------------------------------------------------------------------------------

/// Calls `Value::from` on a text. The value depends on the text alone, and is that string.
#[verifier::external_body]
pub(crate) fn value_from(text: &str) -> (r: Value)
    ensures
        r == toml_string(text@),
        value_text(r) == Some(text@),
{
    Value::from(text)
}

/// Calls `Value::decor` and copies what it gives: the text around the value.
#[verifier::external_body]
pub(crate) fn value_decor_of(value: &Value) -> (r: Decor)
    ensures
        r == value_decor(*value),
{
    value.decor().clone()
}

/// Writes to `Value::decor_mut`. The text around the value becomes the given one; the string that
/// the value is stays. The new value depends on the old one and the text alone, and is the old one if
/// that had the same text around it.
#[verifier::external_body]
pub(crate) fn value_set_decor(value: &mut Value, decor: Decor)
    ensures
        *final(value) == value_decorated(*old(value), decor),
        value_decor(*old(value)) == decor ==> *final(value) == *old(value),
        value_decor(*final(value)) == decor,
        value_text(*final(value)) == value_text(*old(value)),
{
    *value.decor_mut() = decor;
}

} // verus!
