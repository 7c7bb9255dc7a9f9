//! The manifest: which entry counts, and what an edit does to the file.

use vstd::prelude::*;

use toml_edit::{DocumentMut, Table};

use crate::document;
use crate::document::ItemView;
use crate::error::GhrError;
use crate::manifest;
use crate::manifest::{Manifest, ManifestEntry, RowEdit};
use crate::text;

verus! {

/// The entry at this place is for the repository, and none before it is.
pub open spec fn first_entry(tools: Seq<ManifestEntry>, repo: Seq<char>, j: int) -> bool {
    &&& 0 <= j < tools.len()
    &&& tools[j].repo@ == repo
    &&& forall|k: int| 0 <= k < j ==> (#[trigger] tools[k]).repo@ != repo
}

/// No entry is for the repository.
pub open spec fn unlisted(tools: Seq<ManifestEntry>, repo: Seq<char>) -> bool {
    forall|k: int| 0 <= k < tools.len() ==> (#[trigger] tools[k]).repo@ != repo
}

/// The entry for a repository is the first one that is for it, whatever its tag and its alias, and none
/// exactly if no entry is for it. Its tag is the pin.
pub proof fn lemma_entry(tools: Seq<ManifestEntry>, repo: Seq<char>)
    ensures
        manifest::entry_for(tools, repo) is None <==> unlisted(tools, repo),
        forall|j: int| #[trigger] first_entry(tools, repo, j) ==> manifest::entry_for(tools, repo) == Some(
            tools[j],
        ) && manifest::pin_of(tools, repo) == text::opt_string(tools[j].tag),
        manifest::entry_for(tools, repo) matches Some(e) ==> exists|j: int| #[trigger]
            first_entry(tools, repo, j) && tools[j] == e,
        unlisted(tools, repo) ==> manifest::pin_of(tools, repo) is None,
{
    lemma_position(tools, repo);
    let p = manifest::entry_position(tools, repo);
    if p < tools.len() {
        assert(first_entry(tools, repo, p));
        assert forall|j: int| #[trigger] first_entry(tools, repo, j) implies j == p by {
            if j < p {
                assert(tools[j].repo@ != repo);
            } else if p < j {
                assert(tools[p].repo@ != repo);
            }
        }
    }
}

proof fn lemma_position(tools: Seq<ManifestEntry>, repo: Seq<char>)
    ensures
        0 <= manifest::entry_position(tools, repo) <= tools.len(),
        forall|k: int|
            0 <= k < manifest::entry_position(tools, repo) ==> (#[trigger] tools[k]).repo@ != repo,
        manifest::entry_position(tools, repo) < tools.len() ==> tools[manifest::entry_position(
            tools,
            repo,
        )].repo@ == repo,
    decreases tools.len(),
{
    if tools.len() > 0 && tools[0].repo@ != repo {
        let more = tools.drop_first();
        lemma_position(more, repo);
        assert forall|k: int| 0 <= k < manifest::entry_position(tools, repo) implies (
        #[trigger] tools[k]).repo@ != repo by {
            if k > 0 {
                assert(tools[k] == more[k - 1]);
            }
        }
    }
}

/// Looking an entry up finds the first one for the repository, and its tag is the pin.
pub proof fn law_first_entry_counts(
    m: &Manifest,
    repo: &str,
    found: Option<&ManifestEntry>,
    pin: Option<&str>,
)
    requires
        call_ensures(Manifest::get, (m, repo), found),
        call_ensures(Manifest::is_pinned, (m, repo), pin),
    ensures
        found is None <==> unlisted(m.tools@, repo@),
        found matches Some(e) ==> exists|j: int| #[trigger]
            first_entry(m.tools@, repo@, j) && m.tools@[j] == *e,
        match found {
            Some(e) => match e.tag {
                Some(t) => pin matches Some(p) && p@ == t@,
                None => pin is None,
            },
            None => pin is None,
        },
{
    lemma_entry(m.tools@, repo@);
    if let Some(e) = found {
        let j = choose|j: int| #[trigger] first_entry(m.tools@, repo@, j) && m.tools@[j] == *e;
        assert(manifest::pin_of(m.tools@, repo@) == text::opt_string(e.tag));
    }
}

/// The entries are listed, all of them and in their order; a new manifest has none.
pub proof fn law_all_entries_are_listed(
    m: &Manifest,
    r: Vec<&ManifestEntry>,
    at_first: Manifest,
    i: int,
)
    requires
        call_ensures(Manifest::iter, (m,), r),
        call_ensures(Manifest::default, (), at_first),
    ensures
        r@.len() == m.tools@.len(),
        0 <= i < r@.len() ==> *r@[i] == m.tools@[i],
        at_first.tools@.len() == 0,
{
}

// ---- Edits --------------------------------------------------------------------------------------

/// The string behind a key of a row.
pub open spec fn cell(row: ItemView, key: Seq<char>) -> Option<Seq<char>> {
    match row {
        ItemView::Table(t) => document::cell_text(document::cells_in(t), key),
        _ => None,
    }
}

/// The row at this place is for the repository, and none before it is.
pub open spec fn first_row(rows: Seq<ItemView>, repo: Seq<char>, i: int) -> bool {
    &&& 0 <= i < rows.len()
    &&& cell(rows[i], "repo"@) == Some(repo)
    &&& forall|k: int| 0 <= k < i ==> cell(#[trigger] rows[k], "repo"@) != Some(repo)
}

/// No row is for the repository.
pub open spec fn rowless(rows: Seq<ItemView>, repo: Seq<char>) -> bool {
    forall|k: int| 0 <= k < rows.len() ==> cell(#[trigger] rows[k], "repo"@) != Some(repo)
}

proof fn lemma_row(rows: Seq<ItemView>, repo: Seq<char>)
    ensures
        0 <= manifest::row_position(rows, repo) <= rows.len(),
        manifest::row_position(rows, repo) == rows.len() <==> rowless(rows, repo),
        manifest::row_position(rows, repo) < rows.len() ==> first_row(
            rows,
            repo,
            manifest::row_position(rows, repo),
        ),
        forall|i: int| #[trigger] first_row(rows, repo, i) ==> i == manifest::row_position(rows, repo),
    decreases rows.len(),
{
    let p = manifest::row_position(rows, repo);
    if rows.len() > 0 {
        assert(manifest::row_for(rows[0], repo) == (cell(rows[0], "repo"@) == Some(repo)));
        if !manifest::row_for(rows[0], repo) {
            let more = rows.drop_first();
            lemma_row(more, repo);
            if p < rows.len() {
                assert forall|k: int| 0 <= k < p implies cell(#[trigger] rows[k], "repo"@) != Some(
                    repo,
                ) by {
                    if k > 0 {
                        assert(rows[k] == more[k - 1]);
                    }
                }
                assert(rows[p] == more[p - 1]);
            } else {
                assert forall|k: int| 0 <= k < rows.len() implies cell(#[trigger] rows[k], "repo"@)
                    != Some(repo) by {
                    if k > 0 {
                        assert(rows[k] == more[k - 1]);
                    }
                }
            }
        } else {
            assert(cell(rows[0], "repo"@) == Some(repo));
        }
        assert forall|i: int| #[trigger] first_row(rows, repo, i) implies i == p by {
            if p < rows.len() {
                if i < p {
                    assert(cell(rows[i], "repo"@) != Some(repo));
                } else if p < i {
                    assert(cell(rows[p], "repo"@) != Some(repo));
                }
            }
        }
        if rowless(rows, repo) && p < rows.len() {
            assert(cell(rows[p], "repo"@) != Some(repo));
        }
    }
}

/// The first row of the repository may differ, or is new and last. The other rows are the same, and so
/// is what stands behind the other keys of the document and at its end.
pub open spec fn only_its_row_differs(a: DocumentMut, b: DocumentMut, repo: Seq<char>, i: int) -> bool {
    let x = manifest::tool_rows(a);
    let y = manifest::tool_rows(b);
    &&& first_row(y, repo, i)
    &&& if rowless(x, repo) {
        i == x.len() && y.len() == x.len() + 1
    } else {
        first_row(x, repo, i) && y.len() == x.len()
    }
    &&& forall|j: int| 0 <= j < x.len() && j != i ==> #[trigger] y[j] == x[j]
    &&& forall|key: Seq<char>|
        key != "tools"@ ==> #[trigger] document::cell_item(document::root_cells(b), key)
            == document::cell_item(document::root_cells(a), key)
    &&& document::root_of(b) is Table
    &&& document::ending_of(b) == document::ending_of(a)
    &&& document::root_header(b) == document::root_header(a)
}

/// The row says this tag and, if one is given, this alias; else it has the alias that it had. What
/// stands behind its other keys stays.
pub open spec fn row_is_edited(
    a: Seq<ItemView>,
    b: Seq<ItemView>,
    repo: Seq<char>,
    i: int,
    edit: RowEdit,
) -> bool {
    match edit {
        RowEdit::TagAndAlias(tag, alias) => cell(b[i], "tag"@) == text::opt_str(tag) && cell(
            b[i],
            "alias"@,
        ) == text::opt_str(alias),
        RowEdit::Tag(tag) => cell(b[i], "tag"@) == text::opt_str(tag) && cell(b[i], "alias"@)
            == if rowless(a, repo) {
            None
        } else {
            cell(a[i], "alias"@)
        },
    }
}

proof fn lemma_rest_stays(a: DocumentMut, b: DocumentMut, rows: Seq<ItemView>)
    requires
        manifest::only_rows_differ(a, b, rows),
    ensures
        forall|key: Seq<char>|
            key != "tools"@ ==> #[trigger] document::cell_item(document::root_cells(b), key)
                == document::cell_item(document::root_cells(a), key),
{
    assert forall|key: Seq<char>| key != "tools"@ implies #[trigger] document::cell_item(
        document::root_cells(b),
        key,
    ) == document::cell_item(document::root_cells(a), key) by {
        manifest::lemma_other_cells_stay(
            document::root_cells(a),
            document::root_cells(b),
            "tools"@,
            ItemView::Rows(rows),
            key,
        );
    }
}

proof fn lemma_edited(a: DocumentMut, b: DocumentMut, repo: Seq<char>, edit: RowEdit)
    requires
        manifest::only_rows_differ(a, b, manifest::tool_rows(b)),
        manifest::rows_changed(manifest::tool_rows(a), manifest::tool_rows(b), repo, edit),
    ensures
        ({
            let i = manifest::row_position(manifest::tool_rows(b), repo);
            &&& only_its_row_differs(a, b, repo, i)
            &&& row_is_edited(manifest::tool_rows(a), manifest::tool_rows(b), repo, i, edit)
        }),
{
    let x = manifest::tool_rows(a);
    let y = manifest::tool_rows(b);
    lemma_row(x, repo);
    lemma_row(y, repo);
    lemma_rest_stays(a, b, y);
    manifest::lemma_rows_changed(x, y, repo, edit);
    match edit {
        RowEdit::TagAndAlias(tag, alias) => {
            manifest::law_recorded_is_read(x, y, repo, tag, alias);
        },
        RowEdit::Tag(tag) => {
            manifest::law_pinning_keeps_the_alias(x, y, repo, tag);
        },
    }
    let i = manifest::row_position(y, repo);
    assert forall|j: int| 0 <= j < x.len() && j != i implies #[trigger] y[j] == x[j] by {
        if rowless(x, repo) {
            assert(y.drop_last()[j] == y[j]);
        }
    }
}

/// A document whose key `tools` holds something else than rows is refused and stays as it is. Else the
/// row of the repository has the tag and, where it is recorded too, the alias; its place stays, and
/// where there was no row, it comes last. The other rows stay, and so does the rest of the document.
pub proof fn law_edit_changes_one_row(
    doc: &mut DocumentMut,
    repo: &str,
    edit: &RowEdit,
    r: Result<(), GhrError>,
)
    requires
        call_ensures(manifest::edit_tool, (doc, repo, edit), r),
        document::root_of(*old(doc)) is Table,
    ensures
        r is Err <==> document::has_cell(document::root_cells(*old(doc)), "tools"@) && !(
        document::cell_item(document::root_cells(*old(doc)), "tools"@) is Rows),
        r matches Err(e) ==> *final(doc) == *old(doc) && (e matches GhrError::StateCorrupted(m) && m@
            == "`tools` is not an array of tables"@),
        r is Ok ==> exists|i: int| #[trigger]
            only_its_row_differs(*old(doc), *final(doc), repo@, i) && row_is_edited(
                manifest::tool_rows(*old(doc)),
                manifest::tool_rows(*final(doc)),
                repo@,
                i,
                *edit,
            ),
{
    if r is Ok {
        lemma_edited(*old(doc), *final(doc), repo@, *edit);
    }
}

/// The rows are those behind the key `tools` of the root.
pub proof fn law_rows_are_behind_their_key(doc: DocumentMut, t: Table, i: int)
    requires
        document::root_of(doc) == ItemView::Table(t),
    ensures
        (forall|k: int|
            0 <= k < document::cells_in(t).len() ==> document::key_text(
                (#[trigger] document::cells_in(t)[k]).0,
            ) != "tools"@) ==> manifest::tool_rows(doc) == Seq::<ItemView>::empty(),
        0 <= i < document::cells_in(t).len() && document::key_text(document::cells_in(t)[i].0)
            == "tools"@ && (forall|k: int|
            0 <= k < i ==> document::key_text((#[trigger] document::cells_in(t)[k]).0) != "tools"@)
            ==> (document::cells_in(t)[i].1 matches ItemView::Rows(rows) ==> manifest::tool_rows(doc)
            == rows),
{
    let cells = document::cells_in(t);
    manifest::lemma_cell_position(cells, "tools"@);
    let p = document::cell_position(cells, "tools"@);
    if 0 <= i < cells.len() && document::key_text(cells[i].0) == "tools"@ && (forall|k: int|
        0 <= k < i ==> document::key_text((#[trigger] cells[k]).0) != "tools"@) {
        if p < i {
            assert(document::key_text(cells[p].0) != "tools"@);
        } else if i < p {
            assert(document::key_text(cells[i].0) != "tools"@);
        }
    }
}

/// A string that is set is read behind its key, one that is taken out is not there any more, and what
/// stands behind the other keys stays. A value that was there keeps the text around it.
pub proof fn law_string_is_set(
    table: &mut Table,
    key: &str,
    val: Option<&str>,
    r: (),
    other: Seq<char>,
)
    requires
        call_ensures(manifest::set_str, (table, key, val), r),
    ensures
        ({
            let a = document::cells_in(*old(table));
            let b = document::cells_in(*final(table));
            &&& document::cell_text(b, key@) == text::opt_str(val)
            &&& val is None ==> !document::has_cell(b, key@)
            &&& other != key@ ==> document::cell_item(b, other) == document::cell_item(a, other)
            &&& document::header_of(*final(table)) == document::header_of(*old(table))
            &&& val is Some ==> (document::cell_item(a, key@) matches ItemView::Value(v) ==> (
            document::cell_item(b, key@) matches ItemView::Value(w) && document::value_decor(w)
                == document::value_decor(v)))
        }),
{
    let a = document::cells_in(*old(table));
    let b = document::cells_in(*final(table));
    manifest::law_set_string_is_read(a, b, key@, text::opt_str(val), other);
    manifest::law_set_string_is_read(a, b, key@, text::opt_str(val), key@);
    if let Some(v) = val {
        manifest::lemma_cell_replaced_is_found(a, b, key@);
        assert(document::cell_replaced(
            a,
            b,
            key@,
            ItemView::Value(manifest::string_value(a, key@, v@)),
        ));
    }
}

/// Removing takes the first row of the repository out and says so; without one the document stays and
/// it says that, too. The rest of the document stays in either case.
pub proof fn law_removal_takes_one_row(doc: &mut DocumentMut, repo: &str, r: Result<bool, GhrError>)
    requires
        call_ensures(manifest::remove_row, (doc, repo), r),
        document::root_of(*old(doc)) is Table,
    ensures
        r is Ok,
        r->Ok_0 <==> !rowless(manifest::tool_rows(*old(doc)), repo@),
        rowless(manifest::tool_rows(*old(doc)), repo@) ==> *final(doc) == *old(doc),
        row_is_gone(*old(doc), *final(doc), repo@),
{
    let a = manifest::tool_rows(*old(doc));
    lemma_row(a, repo@);
    if r->Ok_0 {
        lemma_gone(*old(doc), *final(doc), repo@);
    }
}

/// The first row of the repository, if there is one, is taken out; the rest of the document stays.
pub open spec fn row_is_gone(a: DocumentMut, b: DocumentMut, repo: Seq<char>) -> bool {
    let x = manifest::tool_rows(a);
    let y = manifest::tool_rows(b);
    &&& forall|i: int| #[trigger] first_row(x, repo, i) ==> y == x.take(i) + x.skip(i + 1)
    &&& forall|key: Seq<char>|
        key != "tools"@ ==> #[trigger] document::cell_item(document::root_cells(b), key)
            == document::cell_item(document::root_cells(a), key)
    &&& document::ending_of(b) == document::ending_of(a)
    &&& document::root_header(b) == document::root_header(a)
}

proof fn lemma_gone(a: DocumentMut, b: DocumentMut, repo: Seq<char>)
    requires
        manifest::row_position(manifest::tool_rows(a), repo) < manifest::tool_rows(a).len(),
        manifest::only_rows_differ(
            a,
            b,
            manifest::tool_rows(a).remove(manifest::row_position(manifest::tool_rows(a), repo)),
        ),
    ensures
        row_is_gone(a, b, repo),
{
    let x = manifest::tool_rows(a);
    let i = manifest::row_position(x, repo);
    lemma_row(x, repo);
    lemma_rest_stays(a, b, x.remove(i));
    manifest::lemma_rows_are_found(a, b);
    assert(x.remove(i) =~= x.take(i) + x.skip(i + 1));
}

/// The file is the text of this document; without a file the document is empty.
pub open spec fn file_is(raw: Option<&str>, doc: DocumentMut) -> bool {
    match raw {
        Some(t) => document::toml_document(t@) == Ok::<_, toml_edit::TomlError>(doc),
        None => document::root_cells(doc).len() == 0 && document::ending_of(doc).len() == 0,
    }
}

/// The error says why the text of the file is no document.
pub open spec fn file_is_broken<T>(raw: Option<&str>, r: Result<T, GhrError>) -> bool {
    &&& raw matches Some(t) && document::toml_document(t@) matches Err(e) && (
    r matches Err(GhrError::StateCorrupted(m)) && m@ == document::toml_error_text(e))
}

/// A file is loaded as the document that it is, and refused exactly if it is none.
pub proof fn law_file_is_loaded(raw: Option<&str>, r: Result<DocumentMut, GhrError>)
    requires
        call_ensures(manifest::load_doc, (raw,), r),
    ensures
        match r {
            Ok(doc) => file_is(raw, doc),
            Err(_) => file_is_broken(raw, r),
        },
{
}

/// The text that is saved is that of the document of the file with one row recorded.
pub proof fn law_recorded_row_is_saved(
    raw: Option<&str>,
    repo: &str,
    tag: Option<&str>,
    alias: Option<&str>,
    r: Result<String, GhrError>,
)
    requires
        call_ensures(Manifest::record_and_save, (raw, repo, tag, alias), r),
    ensures
        saved_rightly(raw, repo@, RowEdit::TagAndAlias(tag, alias), r),
{
    lemma_saved(raw, repo@, RowEdit::TagAndAlias(tag, alias), r);
}

/// The text that is saved is that of the document of the file with one row pinned, or not pinned any
/// more; its alias stays.
pub proof fn law_pinned_row_is_saved(
    raw: Option<&str>,
    repo: &str,
    tag: Option<&str>,
    r: Result<String, GhrError>,
)
    requires
        call_ensures(Manifest::set_tag_and_save, (raw, repo, tag), r),
    ensures
        saved_rightly(raw, repo@, RowEdit::Tag(tag), r),
{
    lemma_saved(raw, repo@, RowEdit::Tag(tag), r);
}

/// The text is that of the document of the file with the row edited and nothing else; an error comes
/// from a file that is no document, or whose key `tools` holds something else than rows.
pub open spec fn saved_rightly(
    raw: Option<&str>,
    repo: Seq<char>,
    edit: RowEdit,
    r: Result<String, GhrError>,
) -> bool {
    match r {
        Ok(t) => exists|a: DocumentMut, b: DocumentMut, i: int|
            #![trigger only_its_row_differs(a, b, repo, i)]
            file_is(raw, a) && t@ == document::document_text(b) && only_its_row_differs(a, b, repo, i)
                && row_is_edited(manifest::tool_rows(a), manifest::tool_rows(b), repo, i, edit),
        Err(e) => file_is_broken(raw, r) || exists|a: DocumentMut| #[trigger]
            file_is(raw, a) && document::has_cell(document::root_cells(a), "tools"@) && !(
            document::cell_item(document::root_cells(a), "tools"@) is Rows) && (
            e matches GhrError::StateCorrupted(m) && m@ == "`tools` is not an array of tables"@),
    }
}

proof fn lemma_saved(
    raw: Option<&str>,
    repo: Seq<char>,
    edit: RowEdit,
    r: Result<String, GhrError>,
)
    requires
        manifest::change_result(text::opt_str(raw), r, repo, edit),
    ensures
        saved_rightly(raw, repo, edit, r),
{
    let w = text::opt_str(raw);
    if manifest::load_error(w) is None {
        let a = choose|a: DocumentMut| #[trigger]
            manifest::loads_as(w, a) && if manifest::tools_broken(a) {
                manifest::corrupted(r, "`tools` is not an array of tables"@)
            } else {
                r matches Ok(t) && manifest::changed_text(a, t@, repo, edit)
            };
        assert(file_is(raw, a));
        if let Ok(t) = r {
            let b = choose|b: DocumentMut|
                t@ == #[trigger] document::document_text(b) && manifest::only_rows_differ(
                    a,
                    b,
                    manifest::tool_rows(b),
                ) && manifest::rows_changed(manifest::tool_rows(a), manifest::tool_rows(b), repo, edit)
                    && (manifest::rows_settled(manifest::tool_rows(a), repo, edit) ==> b == a);
            lemma_edited(a, b, repo, edit);
            assert(only_its_row_differs(
                a,
                b,
                repo,
                manifest::row_position(manifest::tool_rows(b), repo),
            ));
        }
    }
}

/// The text that is saved after a removal is that of the document of the file without the first row of
/// the repository; if there is no such row, nothing is to be saved.
pub proof fn law_removed_row_is_not_saved(
    raw: Option<&str>,
    repo: &str,
    r: Result<Option<String>, GhrError>,
)
    requires
        call_ensures(Manifest::remove_and_save, (raw, repo), r),
    ensures
        match r {
            Ok(Some(t)) => exists|a: DocumentMut, b: DocumentMut| #[trigger]
                row_is_gone(a, b, repo@) && file_is(raw, a) && t@ == document::document_text(b)
                    && !rowless(manifest::tool_rows(a), repo@),
            Ok(None) => exists|a: DocumentMut| #[trigger]
                file_is(raw, a) && rowless(manifest::tool_rows(a), repo@),
            Err(_) => file_is_broken(raw, r),
        },
{
    let w = text::opt_str(raw);
    if manifest::load_error(w) is None {
        let a = choose|a: DocumentMut| #[trigger]
            manifest::loads_as(w, a) && if manifest::row_position(manifest::tool_rows(a), repo@)
                < manifest::tool_rows(a).len() {
                r matches Ok(Some(t)) && manifest::removed_text(a, t@, repo@)
            } else {
                r matches Ok(None)
            };
        assert(file_is(raw, a));
        lemma_row(manifest::tool_rows(a), repo@);
        if let Ok(Some(t)) = r {
            let b = choose|b: DocumentMut|
                t@ == #[trigger] document::document_text(b) && manifest::only_rows_differ(
                    a,
                    b,
                    manifest::tool_rows(a).remove(
                        manifest::row_position(manifest::tool_rows(a), repo@),
                    ),
                );
            lemma_gone(a, b, repo@);
            assert(row_is_gone(a, b, repo@));
        }
    }
}

} // verus!
