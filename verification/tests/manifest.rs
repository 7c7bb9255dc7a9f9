use ghr::error::GhrError;
use ghr::manifest::{edit_tool, load_doc, remove_row, set_str, Manifest, ManifestEntry, RowEdit};
use toml_edit::{DocumentMut, Table};

fn doc(src: &str) -> DocumentMut {
    src.parse::<DocumentMut>().unwrap()
}

/// The typed view of a manifest.
fn typed(src: &str) -> Manifest {
    let table: toml::Table = src.parse().unwrap();
    let mut tools = Vec::new();
    if let Some(rows) = table.get("tools").and_then(|t| t.as_array()) {
        for row in rows {
            let text = |key: &str| row.get(key).and_then(|v| v.as_str()).map(str::to_string);
            tools.push(ManifestEntry {
                repo: text("repo").unwrap(),
                tag: text("tag"),
                alias: text("alias"),
            });
        }
    }
    Manifest { tools }
}

#[test]
fn record_inserts_new_entry_with_alias() {
    let mut d = DocumentMut::new();
    edit_tool(
        &mut d,
        "BurntSushi/ripgrep",
        &RowEdit::TagAndAlias(None, Some("rg")),
    )
    .unwrap();

    let out = d.to_string();
    assert!(out.contains("[[tools]]"));
    assert!(out.contains(r#"repo = "BurntSushi/ripgrep""#));
    assert!(out.contains(r#"alias = "rg""#));
    assert!(!out.contains("tag"));

    // Typed view sees it.
    let m = typed(&out);
    assert_eq!(
        m.get("BurntSushi/ripgrep").unwrap().alias.as_deref(),
        Some("rg")
    );
}

#[test]
fn re_pinning_preserves_comments_and_other_entries() {
    let mut d = doc(r#"# my tools

[[tools]]
repo = "BurntSushi/ripgrep"

[[tools]]
repo = "sharkdp/bat"
tag = "v0.24.0"   # pinned: v0.25 broke theme
"#);

    edit_tool(&mut d, "sharkdp/bat", &RowEdit::Tag(Some("v0.25.0"))).unwrap();

    let out = d.to_string();
    // header comment, the untouched entry, and the inline comment all survive
    assert!(out.contains("# my tools"));
    assert!(out.contains("BurntSushi/ripgrep"));
    assert!(out.contains("# pinned: v0.25 broke theme"));
    // the value itself was updated
    assert!(out.contains("v0.25.0"));
    assert!(!out.contains("v0.24.0"));

    let m = typed(&out);
    assert_eq!(m.tools.len(), 2);
    assert_eq!(m.is_pinned("sharkdp/bat"), Some("v0.25.0"));
}

#[test]
fn clearing_pin_keeps_alias() {
    let mut d = doc(r#"[[tools]]
repo = "BurntSushi/ripgrep"
tag = "14.1.0"
alias = "rg"
"#);

    edit_tool(&mut d, "BurntSushi/ripgrep", &RowEdit::Tag(None)).unwrap();

    let out = d.to_string();
    assert!(!out.contains("tag"));
    assert!(out.contains(r#"alias = "rg""#));
}

#[test]
fn remove_keeps_commented_block_and_comments() {
    let mut d = doc(r#"[[tools]]
repo = "BurntSushi/ripgrep"

# kept for later
# [[tools]]
# repo = "junegunn/fzf"

[[tools]]
repo = "sharkdp/bat"
"#);

    assert!(remove_row(&mut d, "BurntSushi/ripgrep").unwrap());

    let out = d.to_string();
    assert!(!out.contains("BurntSushi/ripgrep"));
    assert!(out.contains("# kept for later"));
    assert!(out.contains("sharkdp/bat"));

    // The commented-out fzf block is invisible to the typed parse, so sync/prune never
    // sees it — exactly the "comment it out to disable" behaviour.
    let m = typed(&out);
    assert_eq!(m.tools.len(), 1);
    assert_eq!(m.tools[0].repo, "sharkdp/bat");
}

#[test]
fn remove_absent_repo_reports_false() {
    let mut d = doc(r#"[[tools]]
repo = "a/b"
"#);
    assert!(!remove_row(&mut d, "missing/repo").unwrap());
}

#[test]
fn is_pinned_reads_tag() {
    let m = typed(
        r#"[[tools]]
repo = "a/b"

[[tools]]
repo = "c/d"
tag = "v2"
"#,
    );

    assert_eq!(m.is_pinned("a/b"), None);
    assert_eq!(m.is_pinned("c/d"), Some("v2"));
    assert_eq!(m.is_pinned("missing/repo"), None);
}

#[test]
fn default_manifest_round_trips_empty() {
    let m = Manifest::default();
    let mut rows = Vec::new();
    for e in m.iter() {
        let mut row = toml::Table::new();
        row.insert("repo".to_string(), toml::Value::String(e.repo.clone()));
        rows.push(toml::Value::Table(row));
    }
    let mut table = toml::Table::new();
    table.insert("tools".to_string(), toml::Value::Array(rows));
    let text = toml::to_string_pretty(&table).unwrap();
    let back = typed(&text);
    assert!(back.tools.is_empty());
    // the file can be loaded, and has no row to take out
    assert!(load_doc(Some(&text)).is_ok());
    assert!(Manifest::remove_and_save(Some(&text), "a/b").unwrap().is_none());
}

#[test]
fn removing_undoes_recording() {
    let src = r#"# my tools

[[tools]]
repo = "sharkdp/bat"
tag = "v0.24.0"   # pinned: v0.25 broke theme

# fast
[[tools]]
repo = "sharkdp/fd"

# the end
"#;
    let recorded = Manifest::record_and_save(Some(src), "new/one", Some("v1"), Some("x")).unwrap();
    assert_ne!(recorded, src);
    let removed = Manifest::remove_and_save(Some(&recorded), "new/one").unwrap().unwrap();
    assert_eq!(removed, src);
    assert!(Manifest::remove_and_save(Some(&removed), "new/one").unwrap().is_none());

    let mut d = doc("title = \"mine\"\n");
    edit_tool(&mut d, "new/one", &RowEdit::TagAndAlias(None, None)).unwrap();
    assert!(remove_row(&mut d, "new/one").unwrap());
    let left = d.to_string();
    assert!(!remove_row(&mut d, "new/one").unwrap());
    assert_eq!(d.to_string(), left);
    assert_eq!(left, "title = \"mine\"\n");
}

#[test]
fn recorded_text_is_read_back() {
    let first = Manifest::record_and_save(None, "a/b", Some("v1"), None).unwrap();
    let second = Manifest::record_and_save(Some(&first), "c/d", None, Some("x")).unwrap();
    let third = Manifest::set_tag_and_save(Some(&second), "c/d", Some("v\"2")).unwrap();
    let m = typed(&third);
    assert_eq!(m.tools.len(), 2);
    assert_eq!(m.is_pinned("a/b"), Some("v1"));
    assert_eq!(m.is_pinned("c/d"), Some("v\"2"));
    assert_eq!(m.get("c/d").unwrap().alias.as_deref(), Some("x"));
    assert_eq!(m.iter().len(), 2);

    let fourth = Manifest::remove_and_save(Some(&third), "a/b").unwrap().unwrap();
    assert_eq!(typed(&fourth).tools.len(), 1);
    assert!(Manifest::remove_and_save(Some(&fourth), "a/b").unwrap().is_none());
    assert!(Manifest::remove_and_save(None, "a/b").unwrap().is_none());
}

#[test]
fn recording_again_changes_nothing() {
    let src = r#"# my tools

[[tools]]
repo = "sharkdp/bat"
tag = 'v0.24.0'   # pinned: v0.25 broke theme

[[tools]]
repo = "sharkdp/fd"
"#;
    for repo in ["sharkdp/bat", "sharkdp/fd", "new/one"] {
        for (tag, alias) in [(Some("v1"), Some("x")), (Some("v1"), None), (None, Some("x"))] {
            let edit = RowEdit::TagAndAlias(tag, alias);
            let mut d = doc(src);
            edit_tool(&mut d, repo, &edit).unwrap();
            let once = d.to_string();
            edit_tool(&mut d, repo, &edit).unwrap();
            assert_eq!(d.to_string(), once);
            let first = Manifest::record_and_save(Some(src), repo, tag, alias).unwrap();
            assert_eq!(first, once);
            let second = Manifest::record_and_save(Some(&first), repo, tag, alias).unwrap();
            assert_eq!(second, first);
        }
    }
}

#[test]
fn broken_files_are_reported() {
    let err = Manifest::set_tag_and_save(Some("tools = 3\n"), "a/b", None).unwrap_err();
    assert_eq!(
        err.message(),
        "State file corrupted: `tools` is not an array of tables"
    );
    let err = Manifest::record_and_save(Some("x = ["), "a/b", None, None).unwrap_err();
    assert!(matches!(err, GhrError::StateCorrupted(_)));
    let expected = "x = [".parse::<DocumentMut>().unwrap_err().to_string();
    assert_eq!(err.message(), format!("State file corrupted: {expected}"));
    // nothing to remove from what is no list of tools
    assert!(Manifest::remove_and_save(Some("tools = 3\n"), "a/b").unwrap().is_none());
    assert!(load_doc(Some("x = [")).is_err());
    assert_eq!(load_doc(None).unwrap().to_string(), "");
}

#[test]
fn strings_are_set_in_place() {
    let mut t = Table::new();
    set_str(&mut t, "tag", Some("v1"));
    set_str(&mut t, "alias", Some("x"));
    set_str(&mut t, "tag", Some("v2"));
    assert_eq!(t.to_string(), "tag = \"v2\"\nalias = \"x\"\n");
    set_str(&mut t, "tag", None);
    set_str(&mut t, "tag", None);
    assert_eq!(t.to_string(), "alias = \"x\"\n");
}

#[test]
fn manifest_is_beside_the_configuration() {
    assert_eq!(
        Manifest::manifest_path(Some("/c"), Some("/h")),
        "/c/ghr/manifest.toml"
    );
    assert_eq!(
        Manifest::manifest_path(None, Some("/h")),
        "/h/.config/ghr/manifest.toml"
    );
}
