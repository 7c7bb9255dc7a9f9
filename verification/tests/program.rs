use std::path::PathBuf;

use ghr::adopt::{adopted_entry, adopted_note, cmd_adopt, Adoption, FileFacts};
use ghr::config::{config_dir, default_install_dir, Config, NotifyMode};
use ghr::error::GhrError;
use ghr::github::api::{
    latest_release_found, latest_release_headers, ApiResponse, ConditionalResult, GithubClient,
    ReplyStep,
};
use ghr::github::types::{Asset, Release, Timestamp};
use ghr::install::{
    cmd_install, find_on_path, found_on_path_note, installed_note, label_with_day, newest_release,
    next_release, path_warning, release_label, resolve_release, selection_for, take_release, Managed,
    NextRelease, ReleaseSelection,
};
use ghr::installer::binary::{atomic_install, make_executable};
use ghr::installer::download::{cache_dir, download_to_cache, make_progress_bar};
use ghr::installer::extract::{
    extract_archive, find_binary, is_elf, is_executable, ArchiveKind, BinarySearchResult,
    WalkedFile,
};
use ghr::installer::{
    default_binary_name, is_archive, locate, Downloaded, InstallSpec, Located, Published, Source,
};
use ghr::manifest::{Manifest, ManifestEntry};
use ghr::output::print_error;
use ghr::paths::{expand_tilde, file_name, join, parent, same_path, shorten_home, strip_prefix};
use ghr::picker::{next_pick, pick, select_asset, NextPick, Offer};
use ghr::sorting::Keyed;
use ghr::state::{State, ToolEntry};
use ghr::sync::{
    cmd_sync, empty_note, nothing_to_do, prune_extras, prune_prompt, wanted_release, PruneRun, Wanted,
};
use ghr::timer::{cmd_disable_timer, cmd_setup_timer, service_content, DisableStep};
use ghr::uninstall::{
    cmd_remove, cmd_uninstall, lock_path, log_dir, remove_tool, run_option, uninstall_options,
    OwnPaths, Step, UninstallOption,
};
use ghr::update::{
    check_plan, cmd_check, cmd_update, cmd_update_concurrent, installed_update, not_installed_note,
    record_update, skipped_note, update_one, updated_note, Answer, PendingUpdate, Planned, UpdateRun,
    UpdateStart, Verdict,
};

fn at(seconds: i64) -> Timestamp {
    Timestamp { seconds, nanos: 0 }
}

fn asset(name: &str) -> Asset {
    Asset {
        name: name.to_string(),
        browser_download_url: format!("https://example.com/{name}"),
        size: 1024,
        content_type: "application/octet-stream".to_string(),
    }
}

fn release(tag: &str, seconds: i64) -> Release {
    Release {
        tag_name: tag.to_string(),
        published_at: at(seconds),
        prerelease: false,
        draft: false,
        assets: vec![asset("tool_x86_64_linux_gnu.tar.gz")],
        html_url: String::new(),
    }
}

fn tool(name: &str, published: i64) -> ToolEntry {
    ToolEntry {
        repo: format!("owner/{name}"),
        installed_tag: "v1".to_string(),
        install_path: format!("/bin/{name}"),
        binary_name: name.to_string(),
        asset_pattern: String::new(),
        installed_sha256: None,
        etag: Some("old".to_string()),
        last_checked: None,
        published_at: Some(at(published)),
    }
}

fn row(repo: &str, tag: Option<&str>) -> ManifestEntry {
    ManifestEntry {
        repo: repo.to_string(),
        tag: tag.map(str::to_string),
        alias: None,
    }
}

fn state_of(names: &[&str]) -> State {
    let mut state = State::default();
    for n in names {
        state.upsert(tool(n, 100));
    }
    state
}

fn answer(name: &str, reply: Result<ConditionalResult<Release>, String>) -> Keyed<Answer> {
    Keyed {
        key: name.to_string(),
        item: Answer {
            entry: tool(name, 100),
            reply,
        },
    }
}

fn changed(tag: &str, seconds: i64) -> Result<ConditionalResult<Release>, String> {
    Ok(ConditionalResult::Changed(ApiResponse {
        data: release(tag, seconds),
        etag: Some("new".to_string()),
    }))
}

#[test]
fn paths_follow_std() {
    assert_eq!(file_name("/a/b"), Some("b"));
    assert_eq!(file_name("/a/.."), None);
    assert_eq!(file_name("/a/b/"), Some("b"));
    assert_eq!(parent("/a/b"), Some("/a"));
    assert_eq!(parent("/"), None);
    assert_eq!(strip_prefix("/h/u/x", "/h/u"), Some("x"));
    assert_eq!(strip_prefix("/h/user", "/h/u"), None);
    assert!(same_path("/a//b/", "/a/b"));
    assert!(!same_path("/a/b", "/a/c"));
    for (a, b) in [("/a", "b"), ("/a/", "b"), ("", "b"), ("/a", "/b"), ("a", "")] {
        assert_eq!(
            join(a, b),
            std::path::Path::new(a).join(b).to_str().unwrap()
        );
    }
}

#[test]
fn home_is_written_and_read_back() {
    let home = Some("/home/u");
    let dir = default_install_dir(home);
    assert_eq!(dir, "/home/u/.local/bin");
    assert_eq!(shorten_home(&dir, home), "~/.local/bin");
    assert_eq!(expand_tilde("~/.local/bin", home), dir);
    assert_eq!(shorten_home("/opt/bin", home), "/opt/bin");
    assert_eq!(expand_tilde("~x/bin", home), "~x/bin");
    assert_eq!(expand_tilde("~/bin", None), "~/bin");
    assert_eq!(default_install_dir(None), "/tmp/.local/bin");
}

#[test]
fn config_is_normalized() {
    let mut c = Config::default_for(Some("/h"));
    assert_eq!(c.check_interval_hours, 24);
    assert_eq!(c.notify, NotifyMode::default());
    c.install_dir = "~/bin".to_string();
    c.github_token = Some(String::new());
    let c = c.load(Some("/h"));
    assert_eq!(c.install_dir, "/h/bin");
    assert_eq!(c.github_token, None);
    assert_eq!(c.save(Some("/h")).install_dir, "~/bin");
    assert_eq!(Config::config_path(None, Some("/h")), "/h/.config/ghr/config.toml");
    assert_eq!(config_dir(Some("/c"), None), "/c/ghr");
}

#[test]
fn client_wants_a_token_that_fits() {
    let client = GithubClient::new(Some("abc".to_string())).unwrap();
    let headers = client.default_headers();
    assert_eq!(headers.len(), 3);
    assert_eq!(headers[2].name, "Authorization");
    assert_eq!(headers[2].value, "Bearer abc");
    let err = match GithubClient::new(Some("a\nb".to_string())) {
        Err(e) => e,
        Ok(_) => unreachable!(),
    };
    assert_eq!(err.message(), "invalid token value");
    assert!(GithubClient::new(Some("a\tb\u{e9}".to_string())).is_ok());
    assert!(GithubClient::new(Some("a\u{7f}".to_string())).is_err());
    assert_eq!(GithubClient::new(None).unwrap().default_headers().len(), 2);
}

#[test]
fn environment_token_goes_first() {
    let env = Some("env".to_string());
    let cfg = Some("cfg".to_string());
    assert_eq!(GithubClient::resolve_token(env.clone(), cfg.clone()), env);
    assert_eq!(GithubClient::resolve_token(None, cfg.clone()), cfg);
}

#[test]
fn urls_name_the_repository() {
    assert_eq!(
        GithubClient::releases_url("a/b"),
        "https://api.github.com/repos/a/b/releases"
    );
    assert_eq!(
        GithubClient::latest_release_url("a/b"),
        "https://api.github.com/repos/a/b/releases/latest"
    );
    assert_eq!(
        GithubClient::tag_release_url("a/b", "v1"),
        "https://api.github.com/repos/a/b/releases/tags/v1"
    );
}

#[test]
fn replies_are_told_apart() {
    assert!(matches!(
        GithubClient::get_latest_release(304, None),
        ReplyStep::NotModified
    ));
    assert!(matches!(GithubClient::get_latest_release(200, None), ReplyStep::ReadBody));
    assert!(matches!(GithubClient::list_releases(304, None), ReplyStep::ReadError));
    assert!(matches!(GithubClient::list_releases(403, None), ReplyStep::ReadError));
    match GithubClient::list_releases(403, Some("12".to_string())) {
        ReplyStep::Fail(e) => assert_eq!(e.message(), "Rate limit exceeded; resets at 12"),
        _ => unreachable!(),
    }
    assert_eq!(
        GithubClient::api_error(500, "oops".to_string()).message(),
        "GitHub API error 500: oops"
    );
}

#[test]
fn known_etags_make_requests_conditional() {
    assert!(latest_release_headers(None).is_empty());
    let headers = latest_release_headers(Some("W/\"1\""));
    assert_eq!(headers.len(), 1);
    assert_eq!(headers[0].name, "If-None-Match");
    assert_eq!(headers[0].value, "W/\"1\"");
    match latest_release_found(release("v2", 5), Some("W/\"2\"".to_string())) {
        ConditionalResult::Changed(found) => {
            assert_eq!(found.data.tag_name, "v2");
            assert_eq!(found.etag.as_deref(), Some("W/\"2\""));
        }
        ConditionalResult::NotModified => unreachable!(),
    }
}

#[test]
fn low_limits_are_warned_of() {
    let client = GithubClient::new(None).unwrap();
    assert_eq!(
        client.check_rate_limit(Some("9")).unwrap(),
        "GitHub API rate limit almost exhausted (9 requests remaining). Set GITHUB_TOKEN to increase the limit."
    );
    assert_eq!(client.check_rate_limit(Some("0")), None);
    assert_eq!(client.check_rate_limit(Some("10")), None);
    assert_eq!(client.check_rate_limit(Some("x")), None);
    assert_eq!(client.check_rate_limit(Some("4294967296")), None);
    assert_eq!(client.check_rate_limit(None), None);
    let with_token = GithubClient::new(Some("t".to_string())).unwrap();
    assert_eq!(
        with_token.check_rate_limit(Some("+1")).unwrap(),
        "GitHub API rate limit almost exhausted (1 requests remaining)."
    );
}

#[test]
fn errors_have_hints() {
    let report = print_error(&GhrError::RateLimitExceeded {
        reset_time: "1".to_string(),
    });
    assert!(report.hint.unwrap().starts_with("Set GITHUB_TOKEN"));
    let report = print_error(&GhrError::BinaryNotFoundInArchive);
    assert_eq!(report.message, "Binary not found in archive after extraction");
    assert_eq!(report.hint, None);
    let missing = GhrError::InstallDirMissing {
        path: "/x".to_string(),
    };
    assert_eq!(
        missing.message(),
        "Install directory /x does not exist and could not be created"
    );
}

#[test]
fn releases_are_offered_in_order() {
    let mut pre = release("v3", 300);
    pre.prerelease = true;
    let mut draft = release("v4", 400);
    draft.draft = true;
    let all = vec![draft, pre, release("v2", 86_400 * 365), release("v1", 0)];
    assert_eq!(newest_release(all.clone(), false, "a/b").unwrap().tag_name, "v2");
    assert_eq!(newest_release(all.clone(), true, "a/b").unwrap().tag_name, "v3");
    assert_eq!(
        newest_release(vec![], true, "a/b").unwrap_err(),
        "no releases found for a/b"
    );
    let (list, labels) = resolve_release(all, false, false, "a/b").unwrap();
    assert_eq!(labels, vec!["v2 (1971-01-01)", "v1 (1970-01-01)"]);
    assert_eq!(take_release(list, 1).tag_name, "v1");
    assert_eq!(release_label(&release("v9", i64::MAX)), "v9");
    assert_eq!(label_with_day("v1", Some("day")), "v1 (day)");
    assert!(matches!(selection_for(None), ReleaseSelection::InteractivePick));
    assert!(matches!(selection_for(Some("x".to_string())), ReleaseSelection::Tag(_)));
}

#[test]
fn nobody_is_asked_with_yes() {
    let mut pre = release("v3", 300);
    pre.prerelease = true;
    let all = vec![pre, release("v2", 200), release("v1", 100)];
    for (prerelease, configured, tag) in
        [(false, false, "v2"), (true, false, "v3"), (false, true, "v3")]
    {
        match next_release(all.clone(), prerelease, configured, "a/b", true) {
            Ok(NextRelease::Done(r)) => assert_eq!(r.tag_name, tag),
            _ => unreachable!(),
        }
    }
    match next_release(all, false, false, "a/b", false) {
        Ok(NextRelease::Ask { releases, labels }) => {
            assert_eq!(releases.len(), 2);
            assert_eq!(labels, vec!["v2 (1970-01-01)", "v1 (1970-01-01)"]);
        }
        _ => unreachable!(),
    }
    assert!(matches!(
        next_release(vec![], true, true, "a/b", true),
        Err(e) if e == "no releases found for a/b"
    ));

    let chosen = Offer::Chosen {
        asset: asset("x"),
        note: "n".to_string(),
    };
    assert!(matches!(
        next_pick(chosen, false),
        NextPick::Done { asset, note: Some(n) } if asset.name == "x" && n == "n"
    ));
    let ask = || Offer::Ask {
        assets: vec![asset("best"), asset("other")],
    };
    assert!(matches!(
        next_pick(ask(), true),
        NextPick::Done { asset, note: None } if asset.name == "best"
    ));
    assert!(matches!(next_pick(ask(), false), NextPick::Ask { assets } if assets.len() == 2));
}

#[test]
fn managed_tools_are_not_installed_twice() {
    let state = state_of(&["bat"]);
    let start = cmd_install(&state, "owner/bat", None, None, None, "/bin", None);
    assert_eq!(start.install_dir, "/bin");
    assert_eq!(start.install_name, "bat");
    match start.managed {
        Managed::Refuse { error } => assert_eq!(
            error,
            "'bat' is already managed by ghr (v1). Run `ghr update bat` to upgrade it, or pass `-t <tag>` to re-pin it to a specific release."
        ),
        _ => unreachable!(),
    }
    let start = cmd_install(&state, "owner/bat", Some("v2"), None, Some("~/b"), "/bin", Some("/h"));
    assert_eq!(start.install_dir, "/h/b");
    match start.managed {
        Managed::Repoint { note } => assert_eq!(note, "Re-pointing bat to v2."),
        _ => unreachable!(),
    }
    let other = cmd_install(&state, "else/bat", None, None, None, "/bin", None);
    assert!(matches!(other.managed, Managed::No));
    let alias = cmd_install(&state, "owner/bat", None, Some("cat"), None, "/bin", None);
    assert_eq!(alias.install_name, "cat");
    assert!(matches!(alias.managed, Managed::No));
}

#[test]
fn search_path_is_searched() {
    assert_eq!(find_on_path("/a:/b/:", "x"), vec!["/a/x", "/b/x", "x"]);
    assert_eq!(path_warning("/a:/b/:/c", "/b"), None);
    assert_eq!(
        path_warning("/a:/b", "/c").unwrap(),
        "/c is not on your PATH. Add it: export PATH=\"/c:$PATH\""
    );
}

#[test]
fn archives_are_recognized() {
    assert!(is_archive(&asset("Tool.TAR.GZ")));
    assert!(is_archive(&asset("tool.tar.bz2")));
    assert!(!is_archive(&asset("tool")));
    let mut typed = asset("tool");
    typed.content_type = "application/X-Tar".to_string();
    assert!(is_archive(&typed));
    assert_eq!(extract_archive("/c/Tool.TGZ"), ArchiveKind::TarGz);
    assert_eq!(extract_archive("/c/tool.tar.xz"), ArchiveKind::TarXz);
    assert_eq!(extract_archive("/c/tool.tar.bz2"), ArchiveKind::TarBz2);
    assert_eq!(extract_archive("/c/tool.zip"), ArchiveKind::Zip);
    assert_eq!(extract_archive("/c/tool"), ArchiveKind::Raw);
    assert_eq!(extract_archive("/"), ArchiveKind::Raw);
}

fn walked(path: &str, elf: bool) -> WalkedFile {
    WalkedFile {
        path: PathBuf::from(path),
        name: path.rsplit('/').next().map(str::to_string),
        elf,
    }
}

#[test]
fn binaries_are_found() {
    let named = find_binary(vec![walked("/x/a", true), walked("/x/tool", false)], "tool");
    assert!(matches!(named, BinarySearchResult::Found(p) if p == PathBuf::from("/x/tool")));
    let only = find_binary(vec![walked("/x/readme", false), walked("/x/a", true)], "tool");
    assert!(matches!(only, BinarySearchResult::Found(p) if p == PathBuf::from("/x/a")));
    let several = find_binary(vec![walked("/x/a", true), walked("/x/b", true)], "tool");
    match locate(several).unwrap() {
        Located::Choose(list) => assert_eq!(list.len(), 2),
        _ => unreachable!(),
    }
    let none = find_binary(vec![walked("/x/readme", false)], "tool");
    match locate(none) {
        Err(e) => assert!(matches!(e, GhrError::BinaryNotFoundInArchive)),
        Ok(_) => unreachable!(),
    }
    assert!(is_elf(b"\x7fELF fake"));
    assert!(!is_elf(b"\x7fEL"));
    assert!(!is_elf(b"#!/bin/sh"));
    assert!(is_executable(0o644 | 0o100));
    assert!(!is_executable(0o644));
    assert_eq!(make_executable(0o600), 0o755);
}

#[test]
fn installation_is_recorded() {
    let r = release("v2", 500);
    let a = asset("tool-v2-linux.tar.gz");
    let spec = InstallSpec::builder("owner/tool", &r, &a)
        .install_dir("/bin")
        .install_name("t".to_string())
        .build();
    assert_eq!(spec.find_name, "tool");
    assert_eq!(spec.install_name, "t");
    let mut dl = match Downloaded::fetch("/c/x", b"bytes", "x", None) {
        Ok(dl) => dl,
        Err(_) => unreachable!(),
    };
    assert_eq!(dl.guard.temp_files, vec!["/c/x"]);
    match spec.source(&mut dl, "/c") {
        Source::Archive { extract_dir } => {
            assert_eq!(extract_dir, "/c/tool-v2-linux.tar.gz-extract")
        }
        _ => unreachable!(),
    }
    assert_eq!(dl.guard.temp_dirs, vec!["/c/tool-v2-linux.tar.gz-extract"]);
    let paths = atomic_install(spec.install_dir, &spec.install_name);
    assert_eq!(paths.dest, "/bin/t");
    assert_eq!(paths.tmp, "/bin/.t.tmp");
    assert_eq!(spec.place().dest, paths.dest);
    assert_eq!(spec.place().tmp, paths.tmp);
    let result = spec.install(&dl, at(600));
    assert_eq!(result.installed_path, "/bin/t");
    assert_eq!(result.tool_entry.install_path, "/bin/t");
    assert_eq!(result.tool_entry.binary_name, "t");
    assert_eq!(result.tool_entry.asset_pattern, "tool-*-linux.tar.gz");
    assert_eq!(result.tool_entry.installed_sha256, dl.sha256);
    assert!(!result.tool_entry.is_behind(r.published_at));
    assert!(Downloaded::fetch(
        "/c/x",
        b"bytes",
        "x",
        Some(Published { content: "abc  x", name: "sums" })
    )
    .is_err());
    assert_eq!(default_binary_name("a/b"), "b");
    assert_eq!(default_binary_name("b"), "b");
}

#[test]
fn downloads_are_kept_in_the_cache() {
    assert_eq!(cache_dir(Some("/c"), None), "/c/ghr");
    assert_eq!(cache_dir(None, Some("/h")), "/h/.cache/ghr");
    assert_eq!(download_to_cache("/c/ghr", "x.zip"), "/c/ghr/x.zip");
    let bar = make_progress_bar(10, "bat", Some(6));
    assert!(bar.bar);
    assert_eq!(bar.prefix, "bat   ");
    let spinner = make_progress_bar(0, "bat", None);
    assert!(!spinner.bar);
    assert!(spinner.template.contains("{spinner:.green}"));
}

#[test]
fn assets_are_offered() {
    let r = release("v1", 0);
    match select_asset(&r, "x86_64", None, "a/b").unwrap() {
        Offer::Chosen { asset, note } => {
            assert_eq!(asset.name, "tool_x86_64_linux_gnu.tar.gz");
            assert_eq!(
                note,
                "Auto-selected asset: tool_x86_64_linux_gnu.tar.gz (arch match: EXACT, x86_64)"
            );
        }
        _ => unreachable!(),
    }
    let mut several = release("v1", 0);
    several.assets.push(asset("tool_x86_64_linux_musl.tar.gz"));
    match select_asset(&several, "x86_64", None, "a/b").unwrap() {
        Offer::Ask { assets } => {
            assert_eq!(pick(assets, 1).name, "tool_x86_64_linux_musl.tar.gz")
        }
        _ => unreachable!(),
    }
    assert!(select_asset(&r, "aarch64", None, "a/b").is_err());
}

#[test]
fn pinned_tools_are_left_alone() {
    let state = state_of(&["bat", "fd"]);
    let manifest = Manifest {
        tools: vec![row("owner/fd", Some("v1")), row("owner/bat", None)],
    };
    let plan = check_plan(&state, &manifest);
    assert!(matches!(&plan[0], Planned::Ask { name, .. } if name == "bat"));
    assert!(matches!(&plan[1], Planned::Pinned { name, tag, .. } if name == "fd" && tag == "v1"));
}

#[test]
fn update_starts_as_asked() {
    let state = state_of(&["bat", "fd"]);
    let manifest = Manifest {
        tools: vec![row("owner/fd", Some("v1"))],
    };
    let start = |name: Option<&str>, all, force| cmd_update(&state, &manifest, name, all, force);
    assert!(matches!(start(None, true, true), UpdateStart::All { force_ignored: true }));
    assert!(matches!(start(None, false, false), UpdateStart::NoName));
    assert!(matches!(start(Some("x"), false, false), UpdateStart::Unknown(_)));
    assert!(matches!(start(Some("bat"), false, false), UpdateStart::Go { cleared: None, .. }));
    match start(Some("fd"), false, false) {
        UpdateStart::Locked { note } => assert_eq!(
            note,
            "fd is pinned to v1. Re-run `ghr update fd --force` to update it to the latest release (this clears the pin)."
        ),
        _ => unreachable!(),
    }
    match start(Some("fd"), false, true) {
        UpdateStart::Go { cleared, .. } => assert_eq!(cleared.as_deref(), Some("v1")),
        _ => unreachable!(),
    }
    let empty = State::default();
    assert!(matches!(
        cmd_update(&empty, &manifest, None, false, false),
        UpdateStart::NoTools
    ));
}

#[test]
fn updates_are_judged_by_name() {
    let mut state = state_of(&["c", "b", "a"]);
    let judged = cmd_update_concurrent(
        &mut state,
        vec![
            answer("c", changed("v2", 200)),
            answer("a", Ok(ConditionalResult::NotModified)),
            answer("b", Err("down".to_string())),
        ],
        at(1000),
    );
    let names: Vec<&str> = judged.iter().map(|r| r.name.as_str()).collect();
    assert_eq!(names, vec!["a", "b", "c"]);
    assert!(matches!(judged[0].verdict, Verdict::UpToDate));
    assert!(
        matches!(&judged[1].verdict, Verdict::Failed { warning } if warning == "Failed to check b: down")
    );
    assert!(
        matches!(&judged[2].verdict, Verdict::Outdated { new_etag, .. } if new_etag.as_deref() == Some("new"))
    );
    assert_eq!(state.get("a").unwrap().last_checked, Some(at(1000)));
    assert_eq!(state.get("b").unwrap().last_checked, None);
    assert_eq!(state.get("c").unwrap().etag.as_deref(), Some("old"));
}

#[test]
fn checks_record_nothing_but_the_moment() {
    let mut state = state_of(&["b", "a", "c"]);
    let report = cmd_check(
        &mut state,
        vec![
            answer("b", changed("v2", 200)),
            answer("a", changed("v1", 100)),
            answer("c", Err("down".to_string())),
        ],
        at(1000),
    );
    assert!(report.any_updates);
    assert_eq!(report.results.len(), 2);
    assert_eq!(report.results[0].name, "a");
    assert!(!report.results[0].update_available);
    assert_eq!(report.results[1].latest_tag.as_deref(), Some("v2"));
    assert!(report.results[1].update_available);
    assert_eq!(report.warnings, vec!["Failed to check c: down"]);
    for name in ["a", "b", "c"] {
        let e = state.get(name).unwrap();
        assert_eq!(e.last_checked, Some(at(1000)));
        assert_eq!(e.etag.as_deref(), Some("old"));
        assert_eq!(e.installed_tag, "v1");
    }
}

#[test]
fn one_tool_is_updated() {
    let mut state = state_of(&["bat"]);
    let entry = tool("bat", 100);
    let verdict = update_one(&mut state, "bat", &entry, changed("v2", 200), at(5));
    let (r, etag) = match verdict {
        Verdict::Outdated { release, new_etag } => (release, new_etag),
        _ => unreachable!(),
    };
    let pending = PendingUpdate::new(
        "bat".to_string(),
        entry,
        r,
        asset("tool_x86_64_linux"),
        "/conf",
        etag,
    );
    assert_eq!(pending.install_dir, "/bin");
    let spec = InstallSpec::builder(&pending.entry.repo, &pending.release, &pending.asset)
        .install_dir(&pending.install_dir)
        .install_name(pending.entry.binary_name.clone())
        .build();
    let dl = match Downloaded::fetch("/c/x", b"", "x", None) {
        Ok(dl) => dl,
        Err(_) => unreachable!(),
    };
    let result = spec.install(&dl, at(6));
    record_update(&mut state, result, pending.new_etag.clone());
    let now = state.get("bat").unwrap();
    assert_eq!(now.installed_tag, "v2");
    assert_eq!(now.etag.as_deref(), Some("new"));
    assert_eq!(state.tools.len(), 1);
    let failed = update_one(
        &mut state,
        "bat",
        &tool("bat", 100),
        Err("x".to_string()),
        at(9),
    );
    assert!(matches!(failed, Verdict::Failed { .. }));
    assert_eq!(state.get("bat").unwrap().last_checked, Some(at(6)));
}

#[test]
fn updates_wait_for_their_downloads() {
    let mut state = state_of(&["bat", "fd"]);
    let mut run = UpdateRun::new();
    for name in ["bat", "fd"] {
        run.chosen(PendingUpdate::new(
            name.to_string(),
            tool(name, 100),
            release("v2", 200),
            asset("tool_x86_64_linux"),
            "/conf",
            Some("new".to_string()),
        ));
    }
    assert_eq!(run.lost("fd", "down"), "Failed to download fd: down");
    assert!(run.take("fd").is_none());
    let p = run.take("bat").unwrap();
    assert!(run.take("bat").is_none());
    let dl = match Downloaded::fetch("/c/x", b"", "x", None) {
        Ok(dl) => dl,
        Err(_) => unreachable!(),
    };
    let result = InstallSpec::builder(&p.entry.repo, &p.release, &p.asset)
        .install_dir(&p.install_dir)
        .install_name(p.entry.binary_name.clone())
        .build()
        .install(&dl, at(6));
    assert_eq!(installed_update(&mut state, p, result), "bat: v1 → v2");
    assert_eq!(state.get("bat").unwrap().installed_tag, "v2");
    assert_eq!(state.get("bat").unwrap().etag.as_deref(), Some("new"));
    assert_eq!(state.get("fd").unwrap().installed_tag, "v1");
    assert_eq!(not_installed_note("fd", "full"), "Failed to install fd: full");
}

#[test]
fn missing_tools_are_synced() {
    let mut state = state_of(&["bat"]);
    let manifest = Manifest {
        tools: vec![
            row("owner/bat", None),
            row("x/fd", Some("v9")),
            row("x/rg", None),
            row("y/rg", None),
            row("z/no", None),
        ],
    };
    let (mut run, wanted) = cmd_sync(&manifest, &state);
    assert_eq!(run.skipped, 1);
    assert_eq!(wanted.len(), 4);
    assert!(matches!(wanted_release(&wanted[0]), Wanted::Tag("v9")));
    assert!(matches!(wanted_release(&wanted[1]), Wanted::Newest));

    let choose = |run: &mut ghr::sync::SyncRun, i: usize| {
        run.chosen(wanted[i].clone(), release("v9", 1), asset("a"), "/bin")
    };
    assert_eq!(choose(&mut run, 0), "fd");
    assert_eq!(choose(&mut run, 1), "rg");
    assert_eq!(choose(&mut run, 2), "rg");
    assert_eq!(
        run.unresolved("z/no", "none"),
        "Failed to resolve z/no: none"
    );
    assert_eq!(run.lost("fd", "down"), "Failed to download fd: down");
    // the later entry of the same name took the place of the earlier one
    let p = run.take("rg").unwrap();
    assert_eq!(p.entry.repo, "y/rg");
    let spec = InstallSpec::builder(&p.entry.repo, &p.release, &p.asset)
        .install_dir(&p.install_dir)
        .install_name(p.install_name.clone())
        .build();
    let dl = match Downloaded::fetch("/c/x", b"", "x", None) {
        Ok(dl) => dl,
        Err(_) => unreachable!(),
    };
    let result = spec.install(&dl, at(6));
    assert_eq!(run.installed(&mut state, result), "rg v9 → /bin/rg");
    assert!(run.take("rg").is_none());
    assert!(run.to_save());
    assert_eq!(
        run.summary(),
        "Sync complete: 1 installed, 1 already present, 2 failed."
    );
    assert!(state.contains("rg"));
    assert!(!nothing_to_do(&manifest, false));
    assert!(nothing_to_do(&Manifest::default(), false));
    assert!(!nothing_to_do(&Manifest::default(), true));
}

#[test]
fn more_sync_failures_are_counted() {
    let state = State::default();
    let manifest = Manifest {
        tools: vec![row("x/a", None), row("x/b", None)],
    };
    let (mut run, wanted) = cmd_sync(&manifest, &state);
    assert_eq!(
        run.unmatched("x/a", "none fits"),
        "Failed to pick an asset for x/a: none fits"
    );
    run.chosen(wanted[1].clone(), release("v1", 1), asset("a"), "/bin");
    assert!(run.take("b").is_some());
    assert_eq!(run.not_installed("b", "full"), "Failed to install b: full");
    assert!(!run.to_save());
    assert_eq!(
        run.summary(),
        "Sync complete: 0 installed, 0 already present, 2 failed."
    );
}

#[test]
fn extras_are_pruned() {
    let mut state = state_of(&["bat", "fd", "rg"]);
    let manifest = Manifest {
        tools: vec![row("owner/fd", None)],
    };
    let extras = prune_extras(&state, &manifest);
    let names: Vec<&str> = extras.iter().map(|e| e.name.as_str()).collect();
    assert_eq!(names, vec!["bat", "rg"]);
    assert_eq!(extras[0].path, "/bin/bat");
    assert_eq!(prune_prompt(extras.len()), "Remove 2 tool(s)?");
    for e in &extras {
        remove_tool(&mut state, &e.name).unwrap();
    }
    assert_eq!(state.tools.len(), 1);
    assert!(state.contains("fd"));
    assert!(prune_extras(&state, &manifest).is_empty());
    let mut run = PruneRun::new();
    assert!(!run.to_save());
    assert_eq!(run.not_removed("fd", "busy"), "Failed to remove fd: busy");
    assert!(!run.to_save());
    assert_eq!(run.removed("bat"), "Removed bat.");
    assert_eq!(run.removed("rg"), "Removed rg.");
    assert!(run.to_save());
    assert_eq!(run.summary(), "Pruned 2 tool(s).");
}

#[test]
fn removal_is_asked_for() {
    let mut state = state_of(&["bat"]);
    let removal = cmd_remove(&state, "bat").unwrap();
    assert_eq!(removal.prompt, "Remove bat (v1) from /bin/bat ?");
    assert_eq!(removal.entry.repo, "owner/bat");
    assert!(cmd_remove(&state, "fd").is_err());
    assert_eq!(remove_tool(&mut state, "bat").unwrap().binary_name, "bat");
    assert!(matches!(
        remove_tool(&mut state, "bat"),
        Err(GhrError::UnknownTool { .. })
    ));
}

#[test]
fn uninstalling_follows_the_selection() {
    let own = OwnPaths {
        state: "/d/ghr/state.toml".to_string(),
        lock: lock_path(Some("/d"), None),
        logs: log_dir(Some("/d"), None),
        manifest: "/c/ghr/manifest.toml".to_string(),
        config: "/c/ghr/config.toml".to_string(),
    };
    assert!(cmd_uninstall(&[], &own).is_none());
    let plan = cmd_uninstall(&[2, 0], &own).unwrap();
    assert_eq!(plan.steps, vec![UninstallOption::Data, UninstallOption::Binaries]);
    assert!(matches!(&plan.always[0], Step::File { path, .. } if path == "/d/ghr/state.toml"));
    assert!(matches!(&plan.always[1], Step::File { path, .. } if path == "/d/binto/.lock"));
    assert!(
        matches!(run_option(UninstallOption::Data, &own), Some(Step::Dir { path, .. }) if path == "/d/ghr")
    );
    assert!(matches!(run_option(UninstallOption::Binaries, &own), Some(Step::Tools)));
    assert!(
        matches!(run_option(UninstallOption::Logs, &own), Some(Step::Dir { path, note }) if path == "/d/ghr/logs" && note.as_deref() == Some("Removed logs"))
    );
    assert!(
        matches!(run_option(UninstallOption::Config, &own), Some(Step::File { path, .. }) if path == "/c/ghr/config.toml")
    );
    let labels: Vec<&str> = uninstall_options().into_iter().map(|o| o.label()).collect();
    assert_eq!(labels[0], "Remove installed binaries");
    assert_eq!(labels.len(), 5);
}

#[test]
fn timer_units_are_written() {
    assert_eq!(
        service_content("/bin/ghr"),
        "[Unit]\nDescription=ghr update check\n\n[Service]\nType=oneshot\nExecStart=/bin/ghr check\n"
    );
    let (service, timer) = cmd_setup_timer("/bin/ghr", None, Some("/h"));
    assert_eq!(service.path, "/h/.config/systemd/user/ghr.service");
    assert_eq!(timer.path, "/h/.config/systemd/user/ghr.timer");
    assert!(timer.content.contains("OnCalendar=daily"));
    assert!(cmd_disable_timer("/t", false, "/s", false).is_none());
    let (first, second) = cmd_disable_timer("/t", true, "/s", false).unwrap();
    assert!(matches!(first, DisableStep::Remove { note, .. } if note == "Removed /t"));
    assert!(matches!(second, DisableStep::Missing { note } if note == "/s not found, skipping."));
}

#[test]
fn binaries_are_adopted() {
    let state = state_of(&["bat"]);
    let facts = FileFacts {
        exists: true,
        is_file: true,
        executable: true,
    };
    match cmd_adopt("/usr/bin/fzf", &facts, &state) {
        Adoption::Adopt { name } => assert_eq!(name, "fzf"),
        _ => unreachable!(),
    }
    match cmd_adopt("/usr/bin/bat", &facts, &state) {
        Adoption::Managed { warning } => assert_eq!(
            warning,
            "bat is already managed by ghr. Use `ghr update bat` instead."
        ),
        _ => unreachable!(),
    }
    let refused = |exists, is_file, executable| {
        match cmd_adopt("/x", &FileFacts { exists, is_file, executable }, &state) {
            Adoption::Refuse { error } => error,
            _ => unreachable!(),
        }
    };
    assert_eq!(refused(false, false, false), "path does not exist: /x");
    assert_eq!(refused(true, false, false), "path is not a file: /x");
    assert_eq!(refused(true, true, false), "/x is not executable");
    match cmd_adopt("/", &facts, &state) {
        Adoption::Refuse { error } => {
            assert_eq!(error, "could not determine binary name from path")
        }
        _ => unreachable!(),
    }
    let entry = adopted_entry("junegunn/fzf", "fzf", "/usr/bin/fzf", None, at(3));
    assert!(entry.is_behind(at(i64::MIN)));
    assert_eq!(entry.installed_tag, "unknown");
    assert_eq!(
        adopted_note("fzf", "junegunn/fzf"),
        "Adopted fzf (junegunn/fzf). Run `ghr update fzf` to detect the current version."
    );
}

#[test]
fn notes_say_what_happened() {
    assert_eq!(
        skipped_note("a/b", "v1"),
        "a/b is pinned to v1. Skipping update check."
    );
    assert_eq!(updated_note("bat", "v1", "v2"), "bat: v1 → v2");
    assert_eq!(
        found_on_path_note("bat", "/usr/bin/bat"),
        "'bat' is already installed at /usr/bin/bat"
    );
    assert_eq!(installed_note("bat", "v1", "/b/bat"), "Installed bat v1 → /b/bat");
    assert_eq!(
        empty_note("/c/manifest.toml"),
        "Manifest is empty (/c/manifest.toml). Install a tool or add entries to it first."
    );
}

#[test]
fn updates_stay_where_the_tool_is() {
    let mut e = tool("bat", 1);
    e.install_path = join("/opt/my tools", "bat");
    assert_eq!(e.install_dir("/conf"), "/opt/my tools");
}
