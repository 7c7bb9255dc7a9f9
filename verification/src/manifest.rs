//! The portable list of tools to manage, and the edits that keep the rest of its file as it is.

use vstd::prelude::*;

use toml_edit::{ArrayOfTables, DocumentMut, Key, Table, Value};

use crate::document;
use crate::document::ItemView;
use crate::error::GhrError;
use crate::paths;
use crate::text;

verus! {

// ---- Entries -------------------------------------------------------------------------------------

/// One tool of the manifest.
#[derive(Debug)]
pub struct ManifestEntry {
    pub repo: String,
    /// The release that the tool is pinned to. A pinned tool is installed in exactly this release
    /// and not updated. Without a tag the tool follows the latest release.
    pub tag: Option<String>,
    /// The name that the binary is installed under, in place of the name of the repository.
    pub alias: Option<String>,
}

impl Clone for ManifestEntry {
    fn clone(&self) -> (r: Self)
        ensures
            r == *self,
    {
        ManifestEntry {
            repo: self.repo.clone(),
            tag: crate::state::copy_opt(&self.tag),
            alias: crate::state::copy_opt(&self.alias),
        }
    }
}

/// The tools to manage.
#[derive(Debug)]
pub struct Manifest {
    pub tools: Vec<ManifestEntry>,
}

/// The position of the first entry for a repository, or the length if there is none.
pub open spec fn entry_position(tools: Seq<ManifestEntry>, repo: Seq<char>) -> int
    decreases tools.len(),
{
    if tools.len() == 0 || tools[0].repo@ == repo {
        0
    } else {
        1 + entry_position(tools.drop_first(), repo)
    }
}

/// The first entry for a repository.
pub open spec fn entry_for(tools: Seq<ManifestEntry>, repo: Seq<char>) -> Option<ManifestEntry> {
    if entry_position(tools, repo) < tools.len() {
        Some(tools[entry_position(tools, repo)])
    } else {
        None
    }
}

/// The tag that a repository is pinned to.
pub open spec fn pin_of(tools: Seq<ManifestEntry>, repo: Seq<char>) -> Option<Seq<char>> {
    match entry_for(tools, repo) {
        Some(e) => match e.tag {
            Some(t) => Some(t@),
            None => None,
        },
        None => None,
    }
}

impl Default for Manifest {
    /// A manifest without tools.
    fn default() -> (r: Self)
        ensures
            r.tools@ == Seq::<ManifestEntry>::empty(),
    {
        Manifest { tools: Vec::new() }
    }
}

impl Manifest {
    /// The file of the manifest: `manifest.toml` beside the configuration.
    pub fn manifest_path(config_dir: Option<&str>, home: Option<&str>) -> (r: String)
        ensures
            r@ == paths::joined(
                crate::config::config_dir_at(text::opt_str(config_dir), text::opt_str(home)),
                "manifest.toml"@,
            ),
    {
        let dir = crate::config::config_dir(config_dir, home);
        paths::join(dir.as_str(), "manifest.toml")
    }

    /// The first entry for `repo`.
    pub fn get(&self, repo: &str) -> (r: Option<&ManifestEntry>)
        ensures
            match (entry_for(self.tools@, repo@)) {
                Some(e) => r matches Some(t) && *t == e,
                None => r is None,
            },
    {
        let ghost all = self.tools@;
        proof {
            assert(all.skip(0) =~= all);
        }
        for i in 0..self.tools.len()
            invariant
                all == self.tools@,
                entry_position(all, repo@) == i + entry_position(all.skip(i as int), repo@),
        {
            proof {
                assert(all.skip(i as int).drop_first() =~= all.skip(i + 1));
                assert(all.skip(i as int)[0] == all[i as int]);
            }
            if text::same_text(self.tools[i].repo.as_str(), repo) {
                return Some(&self.tools[i]);
            }
        }
        None
    }

    /// The tag that `repo` is pinned to, if it is pinned.
    pub fn is_pinned(&self, repo: &str) -> (r: Option<&str>)
        ensures
            text::opt_str(r) == pin_of(self.tools@, repo@),
    {
        match self.get(repo) {
            Some(e) => match &e.tag {
                Some(t) => Some(t.as_str()),
                None => None,
            },
            None => None,
        }
    }

    /// The entries, in order.
    pub fn iter(&self) -> (r: Vec<&ManifestEntry>)
        ensures
            r@.len() == self.tools@.len(),
            forall|i: int| 0 <= i < r@.len() ==> *(#[trigger] r@[i]) == self.tools@[i],
    {
        let mut out: Vec<&ManifestEntry> = Vec::new();
        for i in 0..self.tools.len()
            invariant
                out@.len() == i,
                forall|j: int| 0 <= j < i ==> *(#[trigger] out@[j]) == self.tools@[j],
        {
            out.push(&self.tools[i]);
        }
        out
    }
}

// ---- Rows of the file ------------------------------------------------------------------------

/// A change to the row of a tool. `None` takes the key out.
pub enum RowEdit<'a> {
    /// The pin alone.
    Tag(Option<&'a str>),
    /// The pin and the alias.
    TagAndAlias(Option<&'a str>, Option<&'a str>),
}

/// The value of a key that is set to a string: one that was there keeps the text around it, such as a
/// comment.
pub open spec fn string_value(before: Seq<(Key, ItemView)>, key: Seq<char>, v: Seq<char>) -> Value {
    match document::cell_item(before, key) {
        ItemView::Value(old_value) => document::value_decorated(
            document::toml_string(v),
            document::value_decor(old_value),
        ),
        _ => document::toml_string(v),
    }
}

/// The cells after a string was set or taken out. The other cells stay.
pub open spec fn string_set(
    before: Seq<(Key, ItemView)>,
    after: Seq<(Key, ItemView)>,
    key: Seq<char>,
    val: Option<Seq<char>>,
) -> bool {
    match val {
        Some(v) => {
            let new_value = string_value(before, key, v);
            &&& document::cell_replaced(before, after, key, ItemView::Value(new_value))
            &&& document::value_text(new_value) == Some(v)
            &&& document::cell_item(before, key) matches ItemView::Value(old_value)
                ==> document::value_decor(new_value) == document::value_decor(old_value)
        },
        None => {
            &&& after == document::cells_without(before, key)
            &&& !document::has_cell(after, key)
        },
    }
}

/// Nothing is left to do to set a string or to take it out: the value is the one that is made of the
/// string, whatever text is around it.
pub open spec fn string_settled(
    cells: Seq<(Key, ItemView)>,
    key: Seq<char>,
    val: Option<Seq<char>>,
) -> bool {
    match val {
        Some(v) => document::cell_item(cells, key) matches ItemView::Value(have) && (have
            == document::toml_string(v) || have == document::value_decorated(
            document::toml_string(v),
            document::value_decor(have),
        )),
        None => !document::has_cell(cells, key),
    }
}

/// The cells after a change.
pub open spec fn row_changed(
    before: Seq<(Key, ItemView)>,
    after: Seq<(Key, ItemView)>,
    edit: RowEdit,
) -> bool {
    match edit {
        RowEdit::Tag(tag) => string_set(before, after, "tag"@, text::opt_str(tag)),
        RowEdit::TagAndAlias(tag, alias) => exists|between: Seq<(Key, ItemView)>| #[trigger]
            string_set(before, between, "tag"@, text::opt_str(tag)) && string_set(
                between,
                after,
                "alias"@,
                text::opt_str(alias),
            ),
    }
}

/// Nothing is left to do for a change.
pub open spec fn row_settled(cells: Seq<(Key, ItemView)>, edit: RowEdit) -> bool {
    match edit {
        RowEdit::Tag(tag) => string_settled(cells, "tag"@, text::opt_str(tag)),
        RowEdit::TagAndAlias(tag, alias) => string_settled(cells, "tag"@, text::opt_str(tag))
            && string_settled(cells, "alias"@, text::opt_str(alias)),
    }
}

/// The row is a table for this repository.
pub open spec fn row_for(row: ItemView, repo: Seq<char>) -> bool {
    row matches ItemView::Table(t) && document::cell_text(document::cells_in(t), "repo"@) == Some(
        repo,
    )
}

/// The position of the first row for a repository, or the length if there is none.
pub open spec fn row_position(rows: Seq<ItemView>, repo: Seq<char>) -> int
    decreases rows.len(),
{
    if rows.len() == 0 || row_for(rows[0], repo) {
        0
    } else {
        1 + row_position(rows.drop_first(), repo)
    }
}

/// The row after a change: a table under the same header, with the cells changed. It is the same if
/// nothing was left to do.
pub open spec fn table_changed(before: ItemView, after: ItemView, edit: RowEdit) -> bool {
    match (before, after) {
        (ItemView::Table(t), ItemView::Table(u)) => {
            &&& document::header_of(u) == document::header_of(t)
            &&& row_changed(document::cells_in(t), document::cells_in(u), edit)
            &&& row_settled(document::cells_in(t), edit) ==> u == t
        },
        _ => false,
    }
}

/// A new row: a table with the repository, changed.
pub open spec fn table_made(after: ItemView, repo: Seq<char>, edit: RowEdit) -> bool {
    match after {
        ItemView::Table(u) => exists|first: Seq<(Key, ItemView)>| #[trigger]
            string_set(Seq::empty(), first, "repo"@, Some(repo)) && row_changed(
                first,
                document::cells_in(u),
                edit,
            ),
        _ => false,
    }
}

/// The rows after a change to the row of a repository: that row is changed or, where there is none,
/// a new one comes last. The other rows stay.
pub open spec fn rows_changed(
    before: Seq<ItemView>,
    after: Seq<ItemView>,
    repo: Seq<char>,
    edit: RowEdit,
) -> bool {
    let i = row_position(before, repo);
    if i < before.len() {
        &&& after.len() == before.len()
        &&& forall|j: int| 0 <= j < before.len() && j != i ==> #[trigger] after[j] == before[j]
        &&& table_changed(before[i], after[i], edit)
    } else {
        &&& after.len() == before.len() + 1
        &&& after.drop_last() == before
        &&& table_made(after.last(), repo, edit)
    }
}

/// The first row for a repository is a table with nothing left to do for a change.
pub open spec fn rows_settled(rows: Seq<ItemView>, repo: Seq<char>, edit: RowEdit) -> bool {
    document::table_at(rows, row_position(rows, repo)) matches Some(t) && row_settled(
        document::cells_in(t),
        edit,
    )
}

/// The document has something behind the key `tools` that is no array of tables.
pub open spec fn tools_broken(doc: DocumentMut) -> bool {
    document::has_cell(document::root_cells(doc), "tools"@) && !(document::cell_item(
        document::root_cells(doc),
        "tools"@,
    ) is Rows)
}

/// The rows of the tools in a document.
pub open spec fn tool_rows(doc: DocumentMut) -> Seq<ItemView> {
    document::item_rows(document::cell_item(document::root_cells(doc), "tools"@))
}

/// The document has these rows of tools, and the rest of it is as in another one.
pub open spec fn only_rows_differ(
    before: DocumentMut,
    after: DocumentMut,
    rows: Seq<ItemView>,
) -> bool {
    &&& document::root_of(after) is Table
    &&& document::ending_of(after) == document::ending_of(before)
    &&& document::root_header(after) == document::root_header(before)
    &&& document::cell_replaced(
        document::root_cells(before),
        document::root_cells(after),
        "tools"@,
        ItemView::Rows(rows),
    )
}

/// What was put behind a key is found there.
pub proof fn lemma_cell_replaced_is_found(
    before: Seq<(Key, ItemView)>,
    after: Seq<(Key, ItemView)>,
    key: Seq<char>,
)
    ensures
        forall|item: ItemView|
            #[trigger] document::cell_replaced(before, after, key, item) ==> document::has_cell(
                after,
                key,
            ) && document::cell_item(after, key) == item && document::cell_position(after, key)
                == document::cell_position(before, key),
{
    lemma_cell_position(before, key);
    assert forall|item: ItemView| #[trigger]
        document::cell_replaced(before, after, key, item) implies document::has_cell(after, key)
        && document::cell_item(after, key) == item && document::cell_position(after, key)
        == document::cell_position(before, key) by {
        let i = document::cell_position(before, key);
        assert forall|j: int| 0 <= j < i implies document::key_text((#[trigger] after[j]).0)
            != key by {
            assert(document::key_text(before[j].0) != key);
            if !document::has_cell(before, key) {
                assert(after.drop_last()[j] == after[j]);
            }
        }
        lemma_cell_position_is(after, key, i);
    }
}

pub proof fn lemma_cell_position(cells: Seq<(Key, ItemView)>, key: Seq<char>)
    ensures
        0 <= document::cell_position(cells, key) <= cells.len(),
        forall|j: int|
            0 <= j < document::cell_position(cells, key) ==> document::key_text(
                (#[trigger] cells[j]).0,
            ) != key,
        document::has_cell(cells, key) ==> document::key_text(
            cells[document::cell_position(cells, key)].0,
        ) == key,
    decreases cells.len(),
{
    if cells.len() > 0 && document::key_text(cells[0].0) != key {
        lemma_cell_position(cells.drop_first(), key);
        assert forall|j: int| 0 <= j < document::cell_position(cells, key) implies document::key_text(
            (#[trigger] cells[j]).0,
        ) != key by {
            if j > 0 {
                assert(cells[j] == cells.drop_first()[j - 1]);
            }
        }
    }
}

proof fn lemma_cell_position_is(cells: Seq<(Key, ItemView)>, key: Seq<char>, i: int)
    requires
        0 <= i <= cells.len(),
        forall|j: int| 0 <= j < i ==> document::key_text((#[trigger] cells[j]).0) != key,
        i < cells.len() ==> document::key_text(cells[i].0) == key,
    ensures
        document::cell_position(cells, key) == i,
{
    lemma_cell_position(cells, key);
    let p = document::cell_position(cells, key);
    if p < i {
        assert(document::key_text(cells[p].0) != key);
    } else if i < p {
        assert(document::key_text(cells[i].0) != key);
    }
}

/// The rows that were written to a document are the ones it has.
pub proof fn lemma_rows_are_found(before: DocumentMut, after: DocumentMut)
    ensures
        forall|rows: Seq<ItemView>| #[trigger]
            only_rows_differ(before, after, rows) ==> tool_rows(after) == rows,
{
    lemma_cell_replaced_is_found(
        document::root_cells(before),
        document::root_cells(after),
        "tools"@,
    );
}

/// The tool rows of a document, made if there are none. An error if the key `tools` holds something
/// else.
fn tools_mut(doc: &mut DocumentMut) -> (r: Result<&mut ArrayOfTables, GhrError>)
    requires
        document::root_of(*old(doc)) is Table,
    ensures
        tools_broken(*old(doc)) ==> (r matches Err(GhrError::StateCorrupted(m)) && m@
            == "`tools` is not an array of tables"@ && *final(doc) == *old(doc)),
        !tools_broken(*old(doc)) ==> (r matches Ok(rows) && document::rows_in(*rows) == tool_rows(
            *old(doc),
        ) && only_rows_differ(*old(doc), *final(doc), document::rows_in(*final(rows))) && (
        tool_rows(*old(doc)).len() > 0 && *final(rows) == *rows ==> *final(doc) == *old(doc))),
{
    match document::doc_rows_or_new(doc, "tools") {
        Some(rows) => Ok(rows),
        None => Err(GhrError::StateCorrupted("`tools` is not an array of tables".to_owned())),
    }
}

/// The position of the first row for `repo`.
fn find_index(rows: &ArrayOfTables, repo: &str) -> (r: Option<usize>)
    ensures
        match r {
            Some(i) => i == row_position(document::rows_in(*rows), repo@) && i
                < document::rows_in(*rows).len() && row_for(
                document::rows_in(*rows)[i as int],
                repo@,
            ),
            None => row_position(document::rows_in(*rows), repo@) == document::rows_in(
                *rows,
            ).len(),
        },
{
    let ghost all = document::rows_in(*rows);
    proof {
        assert(all.skip(0) =~= all);
    }
    let n = document::rows_len(rows);
    for i in 0..n
        invariant
            all == document::rows_in(*rows),
            n == all.len(),
            row_position(all, repo@) == i + row_position(all.skip(i as int), repo@),
    {
        proof {
            assert(all.skip(i as int).drop_first() =~= all.skip(i + 1));
            assert(all.skip(i as int)[0] == all[i as int]);
        }
        if let Some(t) = document::rows_get(rows, i) {
            if let Some(have) = document::table_text(t, "repo") {
                if text::same_text(have, repo) {
                    return Some(i);
                }
            }
        }
    }
    None
}

/// Set `key` to `val`, or take it out if `val` is `None`. A value that is there keeps the text
/// around it, such as a comment behind it; a new key comes last.
pub fn set_str(table: &mut Table, key: &str, val: Option<&str>)
    ensures
        document::header_of(*final(table)) == document::header_of(*old(table)),
        string_set(
            document::cells_in(*old(table)),
            document::cells_in(*final(table)),
            key@,
            text::opt_str(val),
        ),
        string_settled(document::cells_in(*old(table)), key@, text::opt_str(val)) ==> *final(table)
            == *old(table),
{
    let ghost before = document::cells_in(*table);
    match val {
        Some(v) => {
            match document::table_value_mut(table, key) {
                Some(existing) => {
                    let decor = document::value_decor_of(existing);
                    *existing = document::value_from(v);
                    document::value_set_decor(existing, decor);
                },
                None => {
                    let made = document::value_from(v);
                    document::table_assign(table, key, made);
                },
            }
            proof {
                lemma_cell_replaced_is_found(before, document::cells_in(*table), key@);
            }
        },
        None => {
            document::table_remove(table, key);
        },
    }
}

/// Apply a change to a table.
fn apply(table: &mut Table, edit: &RowEdit)
    ensures
        document::header_of(*final(table)) == document::header_of(*old(table)),
        row_changed(document::cells_in(*old(table)), document::cells_in(*final(table)), *edit),
        row_settled(document::cells_in(*old(table)), *edit) ==> *final(table) == *old(table),
{
    match edit {
        RowEdit::Tag(tag) => {
            set_str(table, "tag", *tag);
        },
        RowEdit::TagAndAlias(tag, alias) => {
            set_str(table, "tag", *tag);
            set_str(table, "alias", *alias);
        },
    }
}

/// Change the row of `repo`, which is made with the repository in it if there is none. The document
/// stays as it is if nothing is left to do, and nothing is once the change is made. An error if the
/// key `tools` holds something else than rows.
pub fn edit_tool(doc: &mut DocumentMut, repo: &str, edit: &RowEdit) -> (r: Result<(), GhrError>)
    requires
        document::root_of(*old(doc)) is Table,
    ensures
        tools_broken(*old(doc)) ==> (r matches Err(GhrError::StateCorrupted(m)) && m@
            == "`tools` is not an array of tables"@ && *final(doc) == *old(doc)),
        !tools_broken(*old(doc)) ==> r is Ok && only_rows_differ(
            *old(doc),
            *final(doc),
            tool_rows(*final(doc)),
        ) && rows_changed(tool_rows(*old(doc)), tool_rows(*final(doc)), repo@, *edit)
            && rows_settled(tool_rows(*final(doc)), repo@, *edit),
        rows_settled(tool_rows(*old(doc)), repo@, *edit) ==> *final(doc) == *old(doc),
{
    let ghost first = *doc;
    let ghost before = tool_rows(*doc);
    let rows = match tools_mut(doc) {
        Ok(rows) => rows,
        Err(e) => {
            return Err(e);
        },
    };
    match find_index(rows, repo) {
        Some(idx) => {
            if let Some(t) = document::rows_get_mut(rows, idx) {
                apply(t, edit);
            }
            assert(rows_changed(before, document::rows_in(*rows), repo@, *edit));
        },
        None => {
            let mut t = document::table_new();
            set_str(&mut t, "repo", Some(repo));
            apply(&mut t, edit);
            document::rows_push(rows, t);
            assert(document::rows_in(*rows).drop_last() =~= before);
            assert(table_made(document::rows_in(*rows).last(), repo@, *edit));
        },
    }
    proof {
        lemma_rows_are_found(first, *doc);
        lemma_change_settles(before, tool_rows(*doc), repo@, *edit);
    }
    Ok(())
}

/// Take the row of `repo` out. Returns whether there was one. A document without rows stays as it
/// is.
pub fn remove_row(doc: &mut DocumentMut, repo: &str) -> (r: Result<bool, GhrError>)
    requires
        document::root_of(*old(doc)) is Table,
    ensures
        r is Ok,
        r->Ok_0 <==> row_position(tool_rows(*old(doc)), repo@) < tool_rows(*old(doc)).len(),
        r->Ok_0 ==> only_rows_differ(
            *old(doc),
            *final(doc),
            tool_rows(*old(doc)).remove(row_position(tool_rows(*old(doc)), repo@)),
        ),
        !r->Ok_0 ==> *final(doc) == *old(doc),
{
    let rows = match document::doc_rows_mut(doc, "tools") {
        Some(rows) => rows,
        None => {
            return Ok(false);
        },
    };
    match find_index(rows, repo) {
        Some(idx) => {
            document::rows_remove(rows, idx);
            Ok(true)
        },
        None => Ok(false),
    }
}

// ---- The file as a whole -----------------------------------------------------------------------

/// The text of the file is that of this document. Without a file the document is empty.
pub open spec fn loads_as(raw: Option<Seq<char>>, doc: DocumentMut) -> bool {
    &&& document::root_of(doc) is Table
    &&& match raw {
        Some(t) => document::toml_document(t) == Ok::<_, toml_edit::TomlError>(doc),
        None => document::root_cells(doc).len() == 0 && document::ending_of(doc).len() == 0,
    }
}

/// Why the text of the file is no document, if it is none.
pub open spec fn load_error(raw: Option<Seq<char>>) -> Option<Seq<char>> {
    match raw {
        Some(t) => match document::toml_document(t) {
            Ok(_) => None,
            Err(e) => Some(document::toml_error_text(e)),
        },
        None => None,
    }
}

/// The error says that the file is corrupted, with this detail.
pub open spec fn corrupted<T>(r: Result<T, GhrError>, detail: Seq<char>) -> bool {
    r matches Err(GhrError::StateCorrupted(m)) && m@ == detail
}

/// The text is that of the document after a change to the row of a repository. It is that of the same
/// document if nothing was left to do.
pub open spec fn changed_text(
    before: DocumentMut,
    text: Seq<char>,
    repo: Seq<char>,
    edit: RowEdit,
) -> bool {
    exists|after: DocumentMut|
        text == #[trigger] document::document_text(after) && only_rows_differ(
            before,
            after,
            tool_rows(after),
        ) && rows_changed(tool_rows(before), tool_rows(after), repo, edit) && (rows_settled(
            tool_rows(before),
            repo,
            edit,
        ) ==> after == before)
}

/// What comes of a change to the row of a repository: an error if the file is no document or its
/// key `tools` holds something else than rows, and else the new text of the file.
pub open spec fn change_result(
    raw: Option<Seq<char>>,
    r: Result<String, GhrError>,
    repo: Seq<char>,
    edit: RowEdit,
) -> bool {
    match load_error(raw) {
        Some(detail) => corrupted(r, detail),
        None => exists|before: DocumentMut| #[trigger]
            loads_as(raw, before) && if tools_broken(before) {
                corrupted(r, "`tools` is not an array of tables"@)
            } else {
                r matches Ok(t) && changed_text(before, t@, repo, edit)
            },
    }
}

/// The text is that of the document without the first row of a repository.
pub open spec fn removed_text(before: DocumentMut, text: Seq<char>, repo: Seq<char>) -> bool {
    exists|after: DocumentMut|
        text == #[trigger] document::document_text(after) && only_rows_differ(
            before,
            after,
            tool_rows(before).remove(row_position(tool_rows(before), repo)),
        )
}

/// Load the text of the manifest as a document; an empty one without a file.
pub fn load_doc(raw: Option<&str>) -> (r: Result<DocumentMut, GhrError>)
    ensures
        match (load_error(text::opt_str(raw))) {
            Some(detail) => corrupted(r, detail),
            None => r matches Ok(doc) && loads_as(text::opt_str(raw), doc),
        },
{
    match raw {
        None => Ok(document::doc_new()),
        Some(t) => match document::doc_parse(t) {
            Ok(doc) => Ok(doc),
            Err(e) => Err(GhrError::StateCorrupted(document::error_to_string(&e))),
        },
    }
}

/// The text of the manifest after a change to the row of `repo`.
fn edited(raw: Option<&str>, repo: &str, edit: &RowEdit) -> (r: Result<String, GhrError>)
    ensures
        change_result(text::opt_str(raw), r, repo@, *edit),
{
    let mut doc = match load_doc(raw) {
        Ok(doc) => doc,
        Err(e) => {
            return Err(e);
        },
    };
    let ghost before = doc;
    match edit_tool(&mut doc, repo, edit) {
        Ok(()) => {
            let out = document::doc_to_string(&doc);
            assert(changed_text(before, out@, repo@, *edit));
            Ok(out)
        },
        Err(e) => {
            assert(loads_as(text::opt_str(raw), before));
            Err(e)
        },
    }
}

impl Manifest {
    /// The text of the manifest with the pin and the alias of `repo` recorded, where `None` takes
    /// the key out. Everything else in the file stays as it is written.
    pub fn record_and_save(
        raw: Option<&str>,
        repo: &str,
        tag: Option<&str>,
        alias: Option<&str>,
    ) -> (r: Result<String, GhrError>)
        ensures
            change_result(text::opt_str(raw), r, repo@, RowEdit::TagAndAlias(tag, alias)),
    {
        edited(raw, repo, &RowEdit::TagAndAlias(tag, alias))
    }

    /// The text of the manifest with only the pin of `repo` set, or taken out with `None`. The
    /// alias stays.
    pub fn set_tag_and_save(raw: Option<&str>, repo: &str, tag: Option<&str>) -> (r: Result<
        String,
        GhrError,
    >)
        ensures
            change_result(text::opt_str(raw), r, repo@, RowEdit::Tag(tag)),
    {
        edited(raw, repo, &RowEdit::Tag(tag))
    }

    /// The text of the manifest without the row of `repo`, or `None` if it has no such row and is
    /// not to be written.
    pub fn remove_and_save(raw: Option<&str>, repo: &str) -> (r: Result<Option<String>, GhrError>)
        ensures
            match (load_error(text::opt_str(raw))) {
                Some(detail) => corrupted(r, detail),
                None => exists|before: DocumentMut| #[trigger]
                    loads_as(text::opt_str(raw), before) && if row_position(
                        tool_rows(before),
                        repo@,
                    ) < tool_rows(before).len() {
                        r matches Ok(Some(t)) && removed_text(before, t@, repo@)
                    } else {
                        r matches Ok(None)
                    },
            },
    {
        let mut doc = match load_doc(raw) {
            Ok(doc) => doc,
            Err(e) => {
                return Err(e);
            },
        };
        let ghost before = doc;
        match remove_row(&mut doc, repo) {
            Ok(true) => {
                let out = document::doc_to_string(&doc);
                assert(removed_text(before, out@, repo@));
                Ok(Some(out))
            },
            Ok(false) => {
                assert(loads_as(text::opt_str(raw), before));
                Ok(None)
            },
            Err(e) => Err(e),
        }
    }
}

// ---- Laws ----------------------------------------------------------------------------------------

/// The string behind a key in the first row of a repository.
pub open spec fn row_text(rows: Seq<ItemView>, repo: Seq<char>, key: Seq<char>) -> Option<
    Seq<char>,
> {
    match document::table_at(rows, row_position(rows, repo)) {
        Some(t) => document::cell_text(document::cells_in(t), key),
        None => None,
    }
}

/// Putting an item behind one key leaves the items of the others.
pub proof fn lemma_other_cells_stay(
    before: Seq<(Key, ItemView)>,
    after: Seq<(Key, ItemView)>,
    key: Seq<char>,
    item: ItemView,
    other: Seq<char>,
)
    requires
        document::cell_replaced(before, after, key, item),
        other != key,
    ensures
        document::cell_item(after, other) == document::cell_item(before, other),
        document::has_cell(after, other) == document::has_cell(before, other),
{
    lemma_cell_position(before, key);
    lemma_cell_position(before, other);
    let q = document::cell_position(before, other);
    assert forall|j: int| 0 <= j < after.len() && j < q implies document::key_text(
        (#[trigger] after[j]).0,
    ) != other by {
        if j < before.len() {
            assert(document::key_text(before[j].0) != other);
            if !document::has_cell(before, key) {
                assert(after.drop_last()[j] == after[j]);
            }
        }
    }
    if q < before.len() {
        if !document::has_cell(before, key) {
            assert(after.drop_last()[q] == after[q]);
        }
        lemma_cell_position_is(after, other, q);
    } else {
        assert forall|j: int| 0 <= j < after.len() implies document::key_text(
            (#[trigger] after[j]).0,
        ) != other by {
            if j < before.len() {
                assert(document::key_text(before[j].0) != other);
            }
        }
        lemma_cell_position_is(after, other, after.len() as int);
    }
}

/// A string that was set is read there, and the other keys read as before.
pub proof fn law_set_string_is_read(
    before: Seq<(Key, ItemView)>,
    after: Seq<(Key, ItemView)>,
    key: Seq<char>,
    val: Option<Seq<char>>,
    other: Seq<char>,
)
    requires
        string_set(before, after, key, val),
    ensures
        document::cell_text(after, key) == val,
        other != key ==> document::cell_item(after, other) == document::cell_item(before, other)
            && document::has_cell(after, other) == document::has_cell(before, other),
{
    lemma_cell_position(before, key);
    lemma_cell_position(before, other);
    lemma_cell_replaced_is_found(before, after, key);
    let p = document::cell_position(before, key);
    let q = document::cell_position(before, other);
    if other != key {
        if let Some(v) = val {
            lemma_other_cells_stay(
                before,
                after,
                key,
                ItemView::Value(string_value(before, key, v)),
                other,
            );
        } else if document::has_cell(before, key) {
            let t = if q < p {
                q
            } else {
                q - 1
            };
            assert forall|j: int| 0 <= j < t implies document::key_text((#[trigger] after[j]).0)
                != other by {
                assert(after[j] == if j < p { before[j] } else { before[j + 1] });
            }
            if q < before.len() {
                assert(after[t] == before[q]);
            }
            lemma_cell_position_is(after, other, t);
        }
    }
}

proof fn lemma_row_position(rows: Seq<ItemView>, repo: Seq<char>)
    ensures
        0 <= row_position(rows, repo) <= rows.len(),
        forall|j: int| 0 <= j < row_position(rows, repo) ==> !row_for(#[trigger] rows[j], repo),
        row_position(rows, repo) < rows.len() ==> row_for(rows[row_position(rows, repo)], repo),
    decreases rows.len(),
{
    if rows.len() > 0 && !row_for(rows[0], repo) {
        lemma_row_position(rows.drop_first(), repo);
        assert forall|j: int| 0 <= j < row_position(rows, repo) implies !row_for(
            #[trigger] rows[j],
            repo,
        ) by {
            if j > 0 {
                assert(rows[j] == rows.drop_first()[j - 1]);
            }
        }
    }
}

proof fn lemma_row_position_is(rows: Seq<ItemView>, repo: Seq<char>, i: int)
    requires
        0 <= i <= rows.len(),
        forall|j: int| 0 <= j < i ==> !row_for(#[trigger] rows[j], repo),
        i < rows.len() ==> row_for(rows[i], repo),
    ensures
        row_position(rows, repo) == i,
{
    lemma_row_position(rows, repo);
    let p = row_position(rows, repo);
    if p < i {
        assert(!row_for(rows[p], repo));
    } else if i < p {
        assert(!row_for(rows[i], repo));
    }
}

proof fn lemma_keys_differ()
    ensures
        "repo"@ != "tag"@,
        "repo"@ != "alias"@,
        "tag"@ != "alias"@,
{
    reveal_strlit("repo");
    reveal_strlit("tag");
    reveal_strlit("alias");
    assert("repo"@.len() == 4 && "tag"@.len() == 3 && "alias"@.len() == 5);
}

/// What a change does to the keys of a row.
proof fn lemma_row_changed(
    before: Seq<(Key, ItemView)>,
    after: Seq<(Key, ItemView)>,
    edit: RowEdit,
)
    requires
        row_changed(before, after, edit),
    ensures
        document::cell_text(after, "repo"@) == document::cell_text(before, "repo"@),
        edit matches RowEdit::Tag(tag) ==> document::cell_text(after, "tag"@) == text::opt_str(
            tag,
        ) && document::cell_text(after, "alias"@) == document::cell_text(before, "alias"@),
        edit matches RowEdit::TagAndAlias(tag, alias) ==> document::cell_text(after, "tag"@)
            == text::opt_str(tag) && document::cell_text(after, "alias"@) == text::opt_str(
            alias,
        ),
{
    lemma_keys_differ();
    match edit {
        RowEdit::Tag(tag) => {
            let v = text::opt_str(tag);
            law_set_string_is_read(before, after, "tag"@, v, "repo"@);
            law_set_string_is_read(before, after, "tag"@, v, "alias"@);
        },
        RowEdit::TagAndAlias(tag, alias) => {
            let v = text::opt_str(tag);
            let w = text::opt_str(alias);
            let between = choose|between: Seq<(Key, ItemView)>| #[trigger]
                string_set(before, between, "tag"@, v) && string_set(between, after, "alias"@, w);
            law_set_string_is_read(before, between, "tag"@, v, "repo"@);
            law_set_string_is_read(between, after, "alias"@, w, "repo"@);
            law_set_string_is_read(between, after, "alias"@, w, "tag"@);
        },
    }
}

/// After a change the first row of the repository is where it was, or last if there was none.
pub proof fn lemma_rows_changed(
    before: Seq<ItemView>,
    after: Seq<ItemView>,
    repo: Seq<char>,
    edit: RowEdit,
)
    requires
        rows_changed(before, after, repo, edit),
    ensures
        row_position(after, repo) == row_position(before, repo),
        row_position(after, repo) < after.len(),
{
    lemma_row_position(before, repo);
    let i = row_position(before, repo);
    assert forall|j: int| 0 <= j < i implies !row_for(#[trigger] after[j], repo) by {
        assert(!row_for(before[j], repo));
        if i >= before.len() {
            assert(after.drop_last()[j] == after[j]);
        }
    }
    lemma_changed_row(before, after, repo, edit);
    lemma_row_position_is(after, repo, i);
}

/// The changed row is a table for the repository, with the keys of the change.
proof fn lemma_changed_row(
    before: Seq<ItemView>,
    after: Seq<ItemView>,
    repo: Seq<char>,
    edit: RowEdit,
)
    requires
        rows_changed(before, after, repo, edit),
    ensures
        ({
            let i = row_position(before, repo);
            &&& 0 <= i < after.len()
            &&& row_for(after[i], repo)
            &&& after[i] matches ItemView::Table(u) && {
                let cells = document::cells_in(u);
                &&& edit matches RowEdit::Tag(tag) ==> document::cell_text(cells, "tag"@)
                    == text::opt_str(tag) && document::cell_text(cells, "alias"@) == row_text(
                    before,
                    repo,
                    "alias"@,
                )
                &&& edit matches RowEdit::TagAndAlias(tag, alias) ==> document::cell_text(
                    cells,
                    "tag"@,
                ) == text::opt_str(tag) && document::cell_text(cells, "alias"@)
                    == text::opt_str(alias)
            }
        }),
{
    lemma_row_position(before, repo);
    let i = row_position(before, repo);
    if i < before.len() {
        if let (ItemView::Table(t), ItemView::Table(u)) = (before[i], after[i]) {
            lemma_row_changed(document::cells_in(t), document::cells_in(u), edit);
        }
    } else if let ItemView::Table(u) = after.last() {
        let none = Seq::<(Key, ItemView)>::empty();
        let cells = document::cells_in(u);
        let first = choose|first: Seq<(Key, ItemView)>| #[trigger]
            string_set(none, first, "repo"@, Some(repo)) && row_changed(first, cells, edit);
        lemma_keys_differ();
        law_set_string_is_read(none, first, "repo"@, Some(repo), "alias"@);
        lemma_row_changed(first, cells, edit);
    }
}

/// A string that was set or taken out is settled.
proof fn lemma_set_settles(
    before: Seq<(Key, ItemView)>,
    after: Seq<(Key, ItemView)>,
    key: Seq<char>,
    val: Option<Seq<char>>,
)
    requires
        string_set(before, after, key, val),
    ensures
        string_settled(after, key, val),
{
    lemma_cell_replaced_is_found(before, after, key);
}

/// A key other than the one that was set is settled if it was.
proof fn lemma_set_keeps_settled(
    before: Seq<(Key, ItemView)>,
    after: Seq<(Key, ItemView)>,
    key: Seq<char>,
    val: Option<Seq<char>>,
    other: Seq<char>,
    want: Option<Seq<char>>,
)
    requires
        string_set(before, after, key, val),
        string_settled(before, other, want),
        other != key,
    ensures
        string_settled(after, other, want),
{
    law_set_string_is_read(before, after, key, val, other);
}

/// Once a row is changed, nothing is left to do.
proof fn lemma_row_settles(
    before: Seq<(Key, ItemView)>,
    after: Seq<(Key, ItemView)>,
    edit: RowEdit,
)
    requires
        row_changed(before, after, edit),
    ensures
        row_settled(after, edit),
{
    lemma_keys_differ();
    match edit {
        RowEdit::Tag(tag) => {
            lemma_set_settles(before, after, "tag"@, text::opt_str(tag));
        },
        RowEdit::TagAndAlias(tag, alias) => {
            let v = text::opt_str(tag);
            let w = text::opt_str(alias);
            let between = choose|between: Seq<(Key, ItemView)>| #[trigger]
                string_set(before, between, "tag"@, v) && string_set(between, after, "alias"@, w);
            lemma_set_settles(before, between, "tag"@, v);
            lemma_set_settles(between, after, "alias"@, w);
            lemma_set_keeps_settled(between, after, "alias"@, w, "tag"@, v);
        },
    }
}

/// Once the row of a repository is changed, nothing is left to do.
proof fn lemma_change_settles(
    before: Seq<ItemView>,
    after: Seq<ItemView>,
    repo: Seq<char>,
    edit: RowEdit,
)
    requires
        rows_changed(before, after, repo, edit),
    ensures
        rows_settled(after, repo, edit),
{
    lemma_rows_changed(before, after, repo, edit);
    lemma_row_position(before, repo);
    let i = row_position(before, repo);
    if i < before.len() {
        if let (ItemView::Table(t), ItemView::Table(u)) = (before[i], after[i]) {
            lemma_row_settles(document::cells_in(t), document::cells_in(u), edit);
        }
    } else if let ItemView::Table(u) = after.last() {
        let none = Seq::<(Key, ItemView)>::empty();
        let cells = document::cells_in(u);
        let first = choose|first: Seq<(Key, ItemView)>| #[trigger]
            string_set(none, first, "repo"@, Some(repo)) && row_changed(first, cells, edit);
        lemma_row_settles(first, cells, edit);
    }
}

/// Making the same change a second time changes nothing: recording a tag and an alias, and setting or
/// clearing the pin.
pub proof fn law_changing_again_changes_nothing(
    before: Seq<ItemView>,
    after: Seq<ItemView>,
    again: Seq<ItemView>,
    repo: Seq<char>,
    edit: RowEdit,
)
    requires
        rows_changed(before, after, repo, edit),
        rows_changed(after, again, repo, edit),
    ensures
        again == after,
{
    lemma_rows_changed(before, after, repo, edit);
    lemma_change_settles(before, after, repo, edit);
    lemma_row_position(after, repo);
    let i = row_position(after, repo);
    assert(again[i] == after[i]);
    assert(again =~= after);
}

/// After recording, the row of the repository has the tag and the alias that were recorded.
pub proof fn law_recorded_is_read(
    before: Seq<ItemView>,
    after: Seq<ItemView>,
    repo: Seq<char>,
    tag: Option<&str>,
    alias: Option<&str>,
)
    requires
        rows_changed(before, after, repo, RowEdit::TagAndAlias(tag, alias)),
    ensures
        row_position(after, repo) < after.len(),
        row_text(after, repo, "repo"@) == Some(repo),
        row_text(after, repo, "tag"@) == text::opt_str(tag),
        row_text(after, repo, "alias"@) == text::opt_str(alias),
{
    let edit = RowEdit::TagAndAlias(tag, alias);
    lemma_rows_changed(before, after, repo, edit);
    lemma_changed_row(before, after, repo, edit);
}

/// After the pin was set or cleared, the row of the repository has that tag and the alias that it
/// had before.
pub proof fn law_pinning_keeps_the_alias(
    before: Seq<ItemView>,
    after: Seq<ItemView>,
    repo: Seq<char>,
    tag: Option<&str>,
)
    requires
        rows_changed(before, after, repo, RowEdit::Tag(tag)),
    ensures
        row_position(after, repo) < after.len(),
        row_text(after, repo, "tag"@) == text::opt_str(tag),
        row_text(after, repo, "alias"@) == row_text(before, repo, "alias"@),
{
    let edit = RowEdit::Tag(tag);
    lemma_rows_changed(before, after, repo, edit);
    lemma_changed_row(before, after, repo, edit);
}

/// A change to the row of one repository leaves what the rows of the others say.
pub proof fn law_other_repos_stay(
    before: Seq<ItemView>,
    after: Seq<ItemView>,
    repo: Seq<char>,
    edit: RowEdit,
    other: Seq<char>,
    key: Seq<char>,
)
    requires
        rows_changed(before, after, repo, edit),
        other != repo,
    ensures
        row_text(after, other, key) == row_text(before, other, key),
        row_position(after, other) < after.len() <==> row_position(before, other) < before.len(),
{
    lemma_row_position(before, repo);
    lemma_row_position(before, other);
    lemma_changed_row(before, after, repo, edit);
    let i = row_position(before, repo);
    let q = row_position(before, other);
    assert(!row_for(after[i], other));
    assert forall|j: int| 0 <= j < before.len() && j != i implies #[trigger] after[j]
        == before[j] by {
        if i >= before.len() {
            assert(after.drop_last()[j] == after[j]);
        }
    }
    assert forall|j: int| 0 <= j < q implies !row_for(#[trigger] after[j], other) by {
        assert(!row_for(before[j], other));
    }
    if q < before.len() {
        assert(i < before.len() ==> row_for(before[i], repo));
        lemma_row_position_is(after, other, q);
    } else {
        assert forall|j: int| 0 <= j < after.len() implies !row_for(#[trigger] after[j], other) by {
            if j < before.len() {
                assert(!row_for(before[j], other));
            }
        }
        lemma_row_position_is(after, other, after.len() as int);
    }
}

/// Taking the row of one repository out leaves what the rows of the others say, and a repository
/// with one row has none any more.
pub proof fn law_removing_keeps_the_others(
    before: Seq<ItemView>,
    repo: Seq<char>,
    other: Seq<char>,
    key: Seq<char>,
)
    requires
        row_position(before, repo) < before.len(),
    ensures
        ({
            let after = before.remove(row_position(before, repo));
            &&& other != repo ==> row_text(after, other, key) == row_text(before, other, key)
            &&& (forall|j: int|
                row_position(before, repo) < j < before.len() ==> !row_for(
                    #[trigger] before[j],
                    repo,
                )) ==> row_position(after, repo) == after.len()
        }),
{
    lemma_row_position(before, repo);
    lemma_row_position(before, other);
    let i = row_position(before, repo);
    let q = row_position(before, other);
    let after = before.remove(i);
    assert(forall|j: int|
        0 <= j < after.len() ==> #[trigger] after[j] == if j < i {
            before[j]
        } else {
            before[j + 1]
        });
    if other != repo {
        let t = if q < i {
            q
        } else {
            q - 1
        };
        assert(row_for(before[i], repo));
        assert(q != i);
        assert forall|j: int| 0 <= j < t implies !row_for(#[trigger] after[j], other) by {
            assert(after[j] == if j < i { before[j] } else { before[j + 1] });
        }
        if q < before.len() {
            assert(after[t] == before[q]);
        }
        lemma_row_position_is(after, other, t);
    }
    if forall|j: int| i < j < before.len() ==> !row_for(#[trigger] before[j], repo) {
        assert forall|j: int| 0 <= j < after.len() implies !row_for(#[trigger] after[j], repo) by {
            assert(after[j] == if j < i { before[j] } else { before[j + 1] });
        }
        lemma_row_position_is(after, repo, after.len() as int);
    }
}

/// Recording a repository that has no row and taking its row out again gives the rows back, in their
/// order, and there is nothing more to take out.
pub proof fn law_removing_undoes_recording(
    before: Seq<ItemView>,
    after: Seq<ItemView>,
    repo: Seq<char>,
    edit: RowEdit,
)
    requires
        row_position(before, repo) == before.len(),
        rows_changed(before, after, repo, edit),
    ensures
        row_position(after, repo) < after.len(),
        after.remove(row_position(after, repo)) == before,
        row_position(after.remove(row_position(after, repo)), repo) == before.len(),
{
    lemma_rows_changed(before, after, repo, edit);
    assert(after.remove(before.len() as int) =~= after.drop_last());
}

/// The same of documents: once a repository without a row is recorded and removed again, the document
/// has the rows that it had, none of them for the repository, and its other parts are as they were.
pub proof fn law_removed_document_has_its_rows_back(
    before: DocumentMut,
    recorded: DocumentMut,
    after: DocumentMut,
    repo: Seq<char>,
    edit: RowEdit,
)
    requires
        row_position(tool_rows(before), repo) == tool_rows(before).len(),
        only_rows_differ(before, recorded, tool_rows(recorded)),
        rows_changed(tool_rows(before), tool_rows(recorded), repo, edit),
        only_rows_differ(
            recorded,
            after,
            tool_rows(recorded).remove(row_position(tool_rows(recorded), repo)),
        ),
    ensures
        row_position(tool_rows(recorded), repo) < tool_rows(recorded).len(),
        tool_rows(after) == tool_rows(before),
        row_position(tool_rows(after), repo) == tool_rows(after).len(),
        document::cell_item(document::root_cells(before), "tools"@) is Rows
            ==> document::root_cells(after) == document::root_cells(before),
        document::ending_of(after) == document::ending_of(before),
        document::root_header(after) == document::root_header(before),
        forall|key: Seq<char>|
            key != "tools"@ ==> #[trigger] document::cell_item(document::root_cells(after), key)
                == document::cell_item(document::root_cells(before), key),
{
    law_removing_undoes_recording(tool_rows(before), tool_rows(recorded), repo, edit);
    lemma_rows_are_found(recorded, after);
    lemma_cell_position(document::root_cells(before), "tools"@);
    lemma_cell_replaced_is_found(
        document::root_cells(before),
        document::root_cells(recorded),
        "tools"@,
    );
    if document::cell_item(document::root_cells(before), "tools"@) is Rows {
        assert(document::root_cells(after) =~= document::root_cells(before));
    }
    assert forall|key: Seq<char>| key != "tools"@ implies #[trigger] document::cell_item(
        document::root_cells(after),
        key,
    ) == document::cell_item(document::root_cells(before), key) by {
        lemma_other_cells_stay(
            document::root_cells(before),
            document::root_cells(recorded),
            "tools"@,
            ItemView::Rows(tool_rows(recorded)),
            key,
        );
        lemma_other_cells_stay(
            document::root_cells(recorded),
            document::root_cells(after),
            "tools"@,
            ItemView::Rows(tool_rows(after)),
            key,
        );
    }
}

/// The entries are what the rows say: the repository, the tag and the alias of each.
pub open spec fn read_as(rows: Seq<ItemView>, tools: Seq<ManifestEntry>) -> bool {
    &&& tools.len() == rows.len()
    &&& forall|i: int| 0 <= i < rows.len() ==> row_reads(#[trigger] rows[i], tools[i])
}

/// The entry is what the row says.
pub open spec fn row_reads(row: ItemView, entry: ManifestEntry) -> bool {
    match row {
        ItemView::Table(t) => {
            let cells = document::cells_in(t);
            &&& document::cell_text(cells, "repo"@) == Some(entry.repo@)
            &&& document::cell_text(cells, "tag"@) == text::opt_string(
                entry.tag,
            )
            &&& document::cell_text(cells, "alias"@) == text::opt_string(
                entry.alias,
            )
        },
        _ => false,
    }
}

/// The first entry for a repository is at the place of its first row.
proof fn lemma_read_position(rows: Seq<ItemView>, tools: Seq<ManifestEntry>, repo: Seq<char>)
    requires
        read_as(rows, tools),
    ensures
        entry_position(tools, repo) == row_position(rows, repo),
    decreases rows.len(),
{
    if rows.len() > 0 {
        assert(row_reads(rows[0], tools[0]));
        let more_rows = rows.drop_first();
        let more_tools = tools.drop_first();
        assert forall|i: int| 0 <= i < more_rows.len() implies row_reads(
            #[trigger] more_rows[i],
            more_tools[i],
        ) by {
            assert(row_reads(rows[i + 1], tools[i + 1]));
        }
        lemma_read_position(more_rows, more_tools, repo);
    }
}

/// Once a tag and an alias are recorded for a repository, the manifest that is read from the rows
/// has the repository pinned to that tag, under that alias.
pub proof fn law_recorded_pin_is_found(
    before: Seq<ItemView>,
    after: Seq<ItemView>,
    repo: Seq<char>,
    tag: Option<&str>,
    alias: Option<&str>,
    tools: Seq<ManifestEntry>,
)
    requires
        rows_changed(before, after, repo, RowEdit::TagAndAlias(tag, alias)),
        read_as(after, tools),
    ensures
        pin_of(tools, repo) == text::opt_str(tag),
        entry_for(tools, repo) matches Some(e) && text::opt_string(e.alias)
            == text::opt_str(alias),
{
    law_recorded_is_read(before, after, repo, tag, alias);
    lemma_read_position(after, tools, repo);
    lemma_row_position(after, repo);
    let i = row_position(after, repo);
    assert(row_reads(after[i], tools[i]));
}

/// Once the pin of a repository is set or cleared, the manifest that is read from the rows has it
/// pinned to that tag, or not pinned.
pub proof fn law_changed_pin_is_found(
    before: Seq<ItemView>,
    after: Seq<ItemView>,
    repo: Seq<char>,
    tag: Option<&str>,
    tools: Seq<ManifestEntry>,
)
    requires
        rows_changed(before, after, repo, RowEdit::Tag(tag)),
        read_as(after, tools),
    ensures
        pin_of(tools, repo) == text::opt_str(tag),
{
    law_pinning_keeps_the_alias(before, after, repo, tag);
    lemma_read_position(after, tools, repo);
    lemma_row_position(after, repo);
    let i = row_position(after, repo);
    assert(row_reads(after[i], tools[i]));
}

/// A change to one repository leaves the pins of the others.
pub proof fn law_other_pins_stay(
    before: Seq<ItemView>,
    after: Seq<ItemView>,
    repo: Seq<char>,
    edit: RowEdit,
    other: Seq<char>,
    old_tools: Seq<ManifestEntry>,
    new_tools: Seq<ManifestEntry>,
)
    requires
        rows_changed(before, after, repo, edit),
        read_as(before, old_tools),
        read_as(after, new_tools),
        other != repo,
    ensures
        pin_of(new_tools, other) == pin_of(old_tools, other),
{
    law_other_repos_stay(before, after, repo, edit, other, "tag"@);
    lemma_read_position(before, old_tools, other);
    lemma_read_position(after, new_tools, other);
    lemma_row_position(before, other);
    lemma_row_position(after, other);
    let i = row_position(before, other);
    let j = row_position(after, other);
    if i < before.len() {
        assert(row_reads(before[i], old_tools[i]));
        assert(row_reads(after[j], new_tools[j]));
    }
}

} // verus!
