use ghr::error::GhrError;
use ghr::github::types::Timestamp;
use ghr::listing::{cmd_list, stale_banner, stale_count};
use ghr::manifest::{Manifest, ManifestEntry};
use ghr::state::{State, ToolEntry};

fn entry(name: &str, published: Option<Timestamp>) -> ToolEntry {
    ToolEntry {
        repo: format!("owner/{name}"),
        installed_tag: "v1.0.0".to_string(),
        install_path: format!("/home/u/.local/bin/{name}"),
        binary_name: name.to_string(),
        asset_pattern: String::new(),
        installed_sha256: None,
        etag: None,
        last_checked: None,
        published_at: published,
    }
}

fn ts(s: &str) -> Timestamp {
    let t = chrono::DateTime::parse_from_rfc3339(s)
        .unwrap()
        .with_timezone(&chrono::Utc);
    Timestamp {
        seconds: t.timestamp(),
        nanos: t.timestamp_subsec_nanos(),
    }
}

#[test]
fn is_behind_true_when_release_is_newer() {
    let e = entry("bat", Some(ts("2024-01-01T00:00:00Z")));
    assert!(e.is_behind(ts("2024-06-01T00:00:00Z")));
}

#[test]
fn is_behind_false_when_release_is_same_or_older() {
    let e = entry("bat", Some(ts("2024-06-01T00:00:00Z")));
    assert!(!e.is_behind(ts("2024-06-01T00:00:00Z")));
    assert!(!e.is_behind(ts("2024-01-01T00:00:00Z")));
}

#[test]
fn is_behind_true_when_no_local_timestamp() {
    let e = entry("bat", None);
    assert!(e.is_behind(ts("2000-01-01T00:00:00Z")));
}

#[test]
fn install_dir_uses_parent_then_fallback() {
    let e = entry("bat", None);
    let fallback = "/fallback";
    assert_eq!(e.install_dir(fallback), "/home/u/.local/bin");

    let mut rootless = entry("bat", None);
    rootless.install_path = "bat".to_string();
    // parent of a bare filename is "" — still Some, not the fallback
    assert_eq!(rootless.install_dir(fallback), "");

    rootless.install_path = "/".to_string();
    assert_eq!(rootless.install_dir(fallback), "/fallback");
}

#[test]
fn require_errors_for_unknown_tool() {
    let state = State::default();
    let err = state.require("nope").unwrap_err();
    assert!(matches!(err, GhrError::UnknownTool { .. }));
    assert_eq!(err.message(), "Tool 'nope' is not managed by ghr");
}

#[test]
fn upsert_keys_by_binary_name_and_replaces() {
    let mut state = State::default();
    state.upsert(entry("bat", None));
    assert!(state.contains("bat"));

    let updated = entry("bat", None).with_etag(Some("abc".to_string()));
    state.upsert(updated);
    assert_eq!(state.tools.len(), 1);
    assert_eq!(state.get("bat").unwrap().etag.as_deref(), Some("abc"));
}

#[test]
fn touch_checked_sets_timestamp_and_ignores_missing() {
    let now = ts("2024-06-01T00:00:00Z");
    let mut state = State::default();
    state.upsert(entry("bat", None));
    assert!(state.get("bat").unwrap().last_checked.is_none());
    state.touch_checked("bat", now);
    assert!(state.get("bat").unwrap().last_checked.is_some());
    assert_eq!(state.get("bat").unwrap().last_checked, Some(now));
    // no panic for an absent tool
    state.touch_checked("ghost", now);
    assert_eq!(state.tools.len(), 1);
}

#[test]
fn order_is_kept() {
    let mut state = State::default();
    assert!(state.is_empty());
    for name in ["c", "a", "b"] {
        state.upsert(entry(name, None));
    }
    state.upsert(entry("a", None).with_etag(Some("x".to_string())));
    let names: Vec<&String> = state.iter().into_iter().map(|p| p.0).collect();
    assert_eq!(names, vec!["c", "a", "b"]);
    let removed = state.remove("c").unwrap();
    assert_eq!(removed.binary_name, "c");
    assert!(state.remove("c").is_none());
    let names: Vec<&String> = state.iter().into_iter().map(|p| p.0).collect();
    assert_eq!(names, vec!["a", "b"]);
    assert!(state.contains_repo("owner/b"));
    assert!(!state.contains_repo("owner/c"));
}

#[test]
fn state_file_is_below_the_data_directory() {
    assert_eq!(State::state_path(Some("/d"), Some("/h")), "/d/ghr/state.toml");
    assert_eq!(
        State::state_path(None, Some("/h")),
        "/h/.local/share/ghr/state.toml"
    );
    assert_eq!(State::state_path(None, None), ".local/share/ghr/state.toml");
}

#[test]
fn tools_not_checked_recently_are_counted() {
    let now = ts("2024-06-02T00:00:00Z");
    let mut state = State::default();
    state.upsert(entry("never", None));
    let mut recent = entry("recent", None);
    recent.last_checked = Some(ts("2024-06-01T00:00:00Z"));
    state.upsert(recent);
    let mut stale = entry("stale", None);
    stale.last_checked = Some(ts("2024-05-31T23:59:59Z"));
    state.upsert(stale);
    assert_eq!(stale_count(&state, now, 24), 2);
    assert_eq!(
        stale_banner(&state, now, 24).unwrap(),
        "2 tool(s) haven't been checked recently — run `ghr check`"
    );
    assert_eq!(stale_banner(&State::default(), now, 24), None);
}

#[test]
fn durations_agree_with_the_calendar_crate() {
    let moments = [
        (0, 0),
        (1_700_000_000, 5),
        (1_700_000_000, 999_999_999),
        (59, 1_500_000_000),
        (60, 0),
        (-1, 1_200_000_000),
        (-86_401, 3),
        (86_399, 1_999_999_999),
        (200_000, 0),
    ];
    for a in moments {
        for b in moments {
            let x = chrono::DateTime::<chrono::Utc>::from_timestamp(a.0, a.1).unwrap();
            let y = chrono::DateTime::<chrono::Utc>::from_timestamp(b.0, b.1).unwrap();
            let s = Timestamp { seconds: a.0, nanos: a.1 };
            let t = Timestamp { seconds: b.0, nanos: b.1 };
            let d = x - y;
            let nanos = d.num_seconds() as i128 * 1_000_000_000 + d.subsec_nanos() as i128;
            assert_eq!(s.nanos_since(t), nanos);
            assert_eq!(s.is_after(t), x > y);
        }
    }
}

#[test]
fn list_shows_pins_and_dates() {
    let mut state = State::default();
    let mut bat = entry("bat", None);
    bat.last_checked = Some(ts("2024-06-02T07:08:09Z"));
    state.upsert(bat);
    state.upsert(entry("fd", None));
    let manifest = Manifest {
        tools: vec![ManifestEntry {
            repo: "owner/bat".to_string(),
            tag: Some("v1.0.0".to_string()),
            alias: None,
        }],
    };
    let rows = cmd_list(&state, &manifest);
    assert_eq!(rows[0].name, format!("{:<20}", "bat"));
    assert_eq!(rows[0].version, format!("{:<15}", "v1.0.0*"));
    assert_eq!(rows[0].repo, format!("{:<30}", "owner/bat"));
    assert_eq!(rows[0].last_checked, "2024-06-02 07:08");
    assert_eq!(rows[1].version, format!("{:<15}", "v1.0.0"));
    assert_eq!(rows[1].last_checked, "never");
}
