use ghr::github::types::Asset;
use ghr::installer::checksum::is_sidecar;
use ghr::matcher::filter::{
    apply_hard_filters, filter_checksums, filter_os, filter_source_archives, is_source_archive,
};
use ghr::matcher::pattern::{asset_to_pattern, match_pattern};
use ghr::matcher::score::{
    arch_synonyms_for, canonical_arch, detect_arch, foreign_arch_terms, score_and_rank,
    score_asset, ArchMatch, CONFIDENCE_THRESHOLD,
};
use ghr::matcher::{match_asset, MatchOutput};

fn asset(name: &str) -> Asset {
    Asset {
        name: name.to_string(),
        browser_download_url: format!("https://example.com/{name}"),
        size: 1024,
        content_type: "application/octet-stream".to_string(),
    }
}

#[test]
fn removes_checksum_files() {
    let assets = vec![
        asset("tool_linux_amd64.tar.gz"),
        asset("tool_linux_amd64.tar.gz.sha256"),
        asset("checksums.txt"),
        asset("SHA256SUMS"),
    ];
    let filtered = filter_checksums(assets);
    assert_eq!(filtered.len(), 1);
    assert_eq!(filtered[0].name, "tool_linux_amd64.tar.gz");
}

#[test]
fn sidecars_of_every_kind_are_removed() {
    let target = "tool_linux_amd64.tar.gz";
    for ending in [
        "sha256", "sha512", "sha384", "sha224", "sha2", "sha", "digest", "checksum", "SHA384",
    ] {
        let name = format!("{target}.{ending}");
        assert!(is_sidecar(&name, target), "{name}");
        let filtered = filter_checksums(vec![asset(target), asset(&name)]);
        assert_eq!(filtered.len(), 1, "{name}");
        assert_eq!(filtered[0].name, target);
    }
    assert_eq!(filter_checksums(vec![asset("sharp-linux")]).len(), 1);
}

#[test]
fn removes_windows_darwin_assets() {
    let assets = vec![
        asset("tool_linux_amd64.tar.gz"),
        asset("tool_windows_amd64.zip"),
        asset("tool_darwin_arm64.tar.gz"),
        asset("tool_macos_arm64.tar.gz"),
        asset("tool_win64.exe"),
    ];
    let filtered = filter_os(assets);
    assert_eq!(filtered.len(), 1);
    assert_eq!(filtered[0].name, "tool_linux_amd64.tar.gz");
}

#[test]
fn prefers_exact_arch_over_synonym() {
    let s_exact = score_asset(&asset("tool_x86_64_linux.tar.gz"), "x86_64");
    let s_synonym = score_asset(&asset("tool_amd64_linux.tar.gz"), "x86_64");
    assert!(s_exact.total > s_synonym.total);
}

#[test]
fn prefers_gnu_over_musl() {
    let gnu = score_asset(&asset("tool_x86_64_linux_gnu.tar.gz"), "x86_64");
    let musl = score_asset(&asset("tool_x86_64_linux_musl.tar.gz"), "x86_64");
    assert!(gnu.total > musl.total);
}

#[test]
fn rejects_foreign_arch() {
    let arm = score_asset(&asset("tool_aarch64_linux.tar.gz"), "x86_64");
    assert!(arm.total <= 0);
}

#[test]
fn rejects_deb_rpm() {
    let deb = score_asset(&asset("tool_amd64.deb"), "x86_64");
    let rpm = score_asset(&asset("tool_x86_64.rpm"), "x86_64");
    assert!(deb.total < 0);
    assert!(rpm.total < 0);
}

#[test]
fn raw_binary_scores_higher_than_appimage() {
    let raw = score_asset(&asset("tool_x86_64_linux"), "x86_64");
    let appimg = score_asset(&asset("Tool-x86_64.AppImage"), "x86_64");
    assert!(raw.total > appimg.total);
}

// Real-world fixture: ripgrep release assets
#[test]
fn ripgrep_selects_gnu_tarball_on_x86_64() {
    let candidates = vec![
        asset("ripgrep-14.1.0-x86_64-unknown-linux-musl.tar.gz"),
        asset("ripgrep-14.1.0-x86_64-unknown-linux-gnu.tar.gz"),
        asset("ripgrep-14.1.0-aarch64-unknown-linux-gnu.tar.gz"),
        asset("ripgrep-14.1.0-x86_64-pc-windows-msvc.zip"),
    ];
    let ranked = score_and_rank(candidates, "x86_64");
    assert!(!ranked.is_empty());
    assert_eq!(
        ranked[0].asset.name,
        "ripgrep-14.1.0-x86_64-unknown-linux-gnu.tar.gz"
    );
}

// Real-world fixture: gh CLI release assets
#[test]
fn gh_cli_selects_linux_amd64_tarball() {
    let candidates = vec![
        asset("gh_2.45.0_linux_amd64.tar.gz"),
        asset("gh_2.45.0_linux_arm64.tar.gz"),
        asset("gh_2.45.0_linux_386.tar.gz"),
        asset("gh_2.45.0_windows_amd64.zip"),
        asset("gh_2.45.0_macOS_amd64.zip"),
    ];
    let ranked = score_and_rank(candidates, "x86_64");
    assert!(!ranked.is_empty());
    assert_eq!(ranked[0].asset.name, "gh_2.45.0_linux_amd64.tar.gz");
}

// Real-world fixture: bat release assets
#[test]
fn bat_selects_x86_64_gnu_tarball() {
    let candidates = vec![
        asset("bat-v0.24.0-x86_64-unknown-linux-gnu.tar.gz"),
        asset("bat-v0.24.0-x86_64-unknown-linux-musl.tar.gz"),
        asset("bat-v0.24.0-aarch64-unknown-linux-gnu.tar.gz"),
        asset("bat-v0.24.0-arm-unknown-linux-gnueabihf.tar.gz"),
        asset("bat-v0.24.0-x86_64-apple-darwin.tar.gz"),
    ];
    let ranked = score_and_rank(candidates, "x86_64");
    assert!(!ranked.is_empty());
    assert_eq!(
        ranked[0].asset.name,
        "bat-v0.24.0-x86_64-unknown-linux-gnu.tar.gz"
    );
}

// Real-world fixture: delta (git-delta) release assets
#[test]
fn delta_selects_x86_64_musl_when_only_option() {
    let candidates = vec![
        asset("delta-0.17.0-x86_64-unknown-linux-musl.tar.gz"),
        asset("delta-0.17.0-aarch64-unknown-linux-gnu.tar.gz"),
        asset("delta-0.17.0-x86_64-apple-darwin.tar.gz"),
        asset("delta-0.17.0-x86_64-pc-windows-msvc.zip"),
    ];
    let ranked = score_and_rank(candidates, "x86_64");
    assert!(!ranked.is_empty());
    assert_eq!(
        ranked[0].asset.name,
        "delta-0.17.0-x86_64-unknown-linux-musl.tar.gz"
    );
}

// aarch64 host should select arm64 assets
#[test]
fn aarch64_host_selects_arm64_asset() {
    let candidates = vec![
        asset("tool-linux-amd64.tar.gz"),
        asset("tool-linux-arm64.tar.gz"),
    ];
    let ranked = score_and_rank(candidates, "aarch64");
    assert!(!ranked.is_empty());
    assert_eq!(ranked[0].asset.name, "tool-linux-arm64.tar.gz");
}

// Confidence gap: gnu vs musl is a gap of 50, below threshold
#[test]
fn gnu_vs_musl_gap_is_below_confidence_threshold() {
    let gnu = score_asset(&asset("tool_x86_64_linux_gnu.tar.gz"), "x86_64");
    let musl = score_asset(&asset("tool_x86_64_linux_musl.tar.gz"), "x86_64");
    assert!((gnu.total - musl.total) < CONFIDENCE_THRESHOLD);
}

// Confidence gap: exact arch vs synonym is 200, below threshold
#[test]
fn exact_vs_synonym_gap_is_below_confidence_threshold() {
    let exact = score_asset(&asset("tool_x86_64_linux.tar.gz"), "x86_64");
    let synonym = score_asset(&asset("tool_amd64_linux.tar.gz"), "x86_64");
    assert!((exact.total - synonym.total) < CONFIDENCE_THRESHOLD);
}

#[test]
fn generates_pattern_strip_v() {
    let p = asset_to_pattern("gh_2.45.0_linux_amd64.tar.gz", "v2.45.0");
    assert_eq!(p, "gh_*_linux_amd64.tar.gz");
}

#[test]
fn generates_pattern_tag_with_v_in_name() {
    let p = asset_to_pattern("tool-v1.2.3-linux-amd64", "v1.2.3");
    assert_eq!(p, "tool-*-linux-amd64");
}

#[test]
fn pattern_matches_new_version() {
    let p = asset_to_pattern("gh_2.45.0_linux_amd64.tar.gz", "v2.45.0");
    let names = vec!["gh_2.50.0_linux_amd64.tar.gz", "gh_2.50.0_linux_arm64.tar.gz"];
    let matched = match_pattern(&p, &names);
    assert_eq!(matched, vec!["gh_2.50.0_linux_amd64.tar.gz"]);
}

#[test]
fn formats_are_ranked() {
    let total = |name: &str| score_asset(&asset(name), "x86_64").total;
    assert_eq!(total("tool_x86_64_linux"), 1000 + 200 + 400);
    assert_eq!(total("tool_x86_64_linux.tar.gz"), 1000 + 200 + 300);
    assert_eq!(total("tool_x86_64_linux.zip"), 1000 + 200 + 200);
    assert_eq!(total("tool_x86_64_linux.AppImage"), 1000 + 200 + 100);
    assert_eq!(total("tool_amd64_linux_musl.tar.xz"), 800 + 200 + 50 + 300);
}

#[test]
fn arch_names_are_canonical() {
    assert_eq!(canonical_arch(" AMD64\n"), "x86_64");
    assert_eq!(canonical_arch("arm64"), "aarch64");
    assert_eq!(canonical_arch("riscv64"), "x86_64");
    assert_eq!(arch_synonyms_for("aarch64"), vec!["aarch64", "arm64"]);
    assert!(arch_synonyms_for("riscv64").is_empty());
    assert_eq!(foreign_arch_terms("x86_64").len(), 2 + 3 + 4);
    assert_eq!(detect_arch(Some("X86_64\n"), "ARM"), "x86_64");
    assert_eq!(detect_arch(None, "ARM"), "arm");
    assert_eq!(ArchMatch::Synonym.label(), "SYNONYM");
}

#[test]
fn ranking_is_sorted_and_stable() {
    let ranked = score_and_rank(
        vec![
            asset("a_linux_amd64.tar.gz"),
            asset("b_linux_x86_64.tar.gz"),
            asset("c_linux_amd64.tgz"),
            asset("d.rpm"),
        ],
        "x86_64",
    );
    let names: Vec<&str> = ranked.iter().map(|s| s.asset.name.as_str()).collect();
    assert_eq!(
        names,
        vec!["b_linux_x86_64.tar.gz", "a_linux_amd64.tar.gz", "c_linux_amd64.tgz"]
    );
}

#[test]
fn hard_filters_keep_linux_binaries() {
    let left = apply_hard_filters(vec![
        asset("tool_linux_amd64.tar.gz"),
        asset("tool_windows_amd64.zip"),
        asset("tool_linux_amd64.tar.gz.sha256"),
    ]);
    assert_eq!(left.len(), 1);
    assert_eq!(left[0].name, "tool_linux_amd64.tar.gz");
    assert!(is_source_archive("tool source code.zip"));
    assert!(is_source_archive("source_code.tar.gz"));
    assert!(!is_source_archive("tool_linux_amd64.tar.gz"));
    assert_eq!(filter_source_archives(vec![asset("Source Code (zip)")]).len(), 0);
}

#[test]
fn patterns_without_a_version_are_exact() {
    assert_eq!(asset_to_pattern("tool-linux", "v1.0"), "tool-linux");
    assert_eq!(match_pattern("tool-linux", &["tool-linux", "tool"]), vec!["tool-linux"]);
    assert!(match_pattern("a[", &["a["]).is_empty());
    assert_eq!(match_pattern("t?ol", &["tool", "tol"]), vec!["tool"]);
}

#[test]
fn saved_pattern_spares_the_choice() {
    let pattern = asset_to_pattern("gh_2.45.0_linux_amd64.tar.gz", "v2.45.0");
    let out = match_asset(
        vec![
            asset("gh_2.50.0_linux_amd64.tar.gz"),
            asset("gh_2.50.0_linux_arm64.tar.gz"),
        ],
        "x86_64",
        Some(&pattern),
        "cli/cli",
        "v2.50.0",
    )
    .unwrap();
    match out {
        MatchOutput::AutoSelected(s) => {
            assert_eq!(s.asset.name, "gh_2.50.0_linux_amd64.tar.gz");
            assert_eq!(s.score.arch_match, ArchMatch::Synonym);
        }
        _ => unreachable!(),
    }
}

#[test]
fn close_candidates_are_asked_for() {
    let out = match_asset(
        vec![
            asset("tool_x86_64_linux_musl.tar.gz"),
            asset("tool_x86_64_linux_gnu.tar.gz"),
        ],
        "x86_64",
        None,
        "a/b",
        "v1",
    )
    .unwrap();
    match out {
        MatchOutput::NeedsInteraction(list) => {
            assert_eq!(list[0].asset.name, "tool_x86_64_linux_gnu.tar.gz");
            assert_eq!(list.len(), 2);
        }
        _ => unreachable!(),
    }
}

#[test]
fn no_compatible_assets_is_an_error() {
    let err = match_asset(vec![asset("tool.exe")], "x86_64", None, "a/b", "v1").unwrap_err();
    assert_eq!(
        err.message(),
        "No Linux-compatible assets found for a/b v1"
    );
}
