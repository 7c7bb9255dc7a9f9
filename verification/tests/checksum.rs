use ghr::error::GhrError;
use ghr::github::types::Asset;
use ghr::installer::checksum::{
    digest_algo, find_checksum_asset, is_generic_checksums_file, is_sidecar, parse_checksums,
    sha256_file, verify_checksum, ChecksumAlgo, ChecksumError,
};

fn asset(name: &str) -> Asset {
    Asset {
        name: name.to_string(),
        browser_download_url: format!("https://example.com/{name}"),
        size: 0,
        content_type: String::new(),
    }
}

#[test]
fn parses_checksums_file() {
    let content = "\
abc123  tool_linux_amd64.tar.gz\n\
def456  tool_darwin_arm64.tar.gz\n\
";
    assert_eq!(
        parse_checksums(content, "tool_linux_amd64.tar.gz"),
        Some("abc123".to_string())
    );
    assert_eq!(parse_checksums(content, "nonexistent.tar.gz"), None);
}

#[test]
fn parses_asterisk_prefix() {
    let content = "abc123 *tool_linux_amd64.tar.gz\n";
    assert_eq!(
        parse_checksums(content, "tool_linux_amd64.tar.gz"),
        Some("abc123".to_string())
    );
}

#[test]
fn parses_filename_with_spaces() {
    let content = "abc123  my tool linux.tar.gz\n";
    assert_eq!(
        parse_checksums(content, "my tool linux.tar.gz"),
        Some("abc123".to_string())
    );
}

#[test]
fn uppercase_hash_is_normalized() {
    let content = "ABCDEF  tool.tar.gz\n";
    assert_eq!(
        parse_checksums(content, "tool.tar.gz"),
        Some("abcdef".to_string())
    );
}

#[test]
fn parses_bare_hash_sidecar() {
    // A `tool.tar.gz.sha512` sidecar that holds only the digest, with no filename.
    let sha512 = "a".repeat(128);
    assert_eq!(
        parse_checksums(&format!("{sha512}\n"), "tool.tar.gz"),
        Some(sha512.clone())
    );
    // Bare hash followed by the filename also works.
    assert_eq!(
        parse_checksums(&format!("{sha512}  tool.tar.gz\n"), "tool.tar.gz"),
        Some(sha512)
    );
}

#[test]
fn algo_inferred_from_digest_length() {
    assert_eq!(ChecksumAlgo::from_hex_len(64), Some(ChecksumAlgo::Sha256));
    assert_eq!(ChecksumAlgo::from_hex_len(128), Some(ChecksumAlgo::Sha512));
    assert_eq!(ChecksumAlgo::from_hex_len(96), Some(ChecksumAlgo::Sha384));
    assert_eq!(ChecksumAlgo::from_hex_len(56), Some(ChecksumAlgo::Sha224));
    assert_eq!(ChecksumAlgo::from_hex_len(40), None); // sha1 — unsupported
    assert_eq!(ChecksumAlgo::from_hex_len(32), None); // md5 — unsupported
}

#[test]
fn digest_algo_rejects_non_hex() {
    assert!(digest_algo(&"z".repeat(64)).is_none());
    assert!(digest_algo("").is_none());
    assert_eq!(digest_algo(&"0".repeat(128)), Some(ChecksumAlgo::Sha512));
}

#[test]
fn sha512_digest_matches_known_vector() {
    // SHA-512 of the empty input.
    let empty = ChecksumAlgo::Sha512.digest_hex(b"");
    assert_eq!(
        empty,
        "cf83e1357eefb8bdf1542850d66d8007d620e4050b5715dc83f4a921d36ce9ce\
47d0d13c5d85f2b0ff8318d2877eec2f63b931bd47417a81a538327af927da3e"
    );
}

#[test]
fn prefers_sidecar_over_generic_list() {
    let assets = vec![
        asset("tool.tar.gz"),
        asset("checksums.txt"),
        asset("tool.tar.gz.sha512"),
    ];
    let found = find_checksum_asset("tool.tar.gz", &assets).unwrap();
    assert_eq!(found.name, "tool.tar.gz.sha512");
}

#[test]
fn falls_back_to_generic_list() {
    let assets = vec![asset("tool.tar.gz"), asset("SHA512SUMS")];
    let found = find_checksum_asset("tool.tar.gz", &assets).unwrap();
    assert_eq!(found.name, "SHA512SUMS");
}

#[test]
fn recognizes_generic_checksum_filenames() {
    for name in [
        "checksums.txt",
        "checksum",
        "SHA256SUMS",
        "sha512sums.txt",
        "sha256sum",
        "checksums.sha256",
        "SHA512SUMS",
    ] {
        assert!(is_generic_checksums_file(name), "{name} should match");
    }
    for name in ["tool.tar.gz", "tool.sig", "readme.txt"] {
        assert!(!is_generic_checksums_file(name), "{name} should not match");
    }
}

#[test]
fn no_checksum_asset_returns_none() {
    let assets = vec![asset("tool.tar.gz"), asset("tool.tar.gz.sig")];
    assert!(find_checksum_asset("tool.tar.gz", &assets).is_none());
}

#[test]
fn digests_match_known_vectors() {
    assert_eq!(
        ChecksumAlgo::Sha224.digest_hex(b""),
        "d14a028c2a3a2bc9476102bb288234c415a2b01f828ea62ac5b3e42f"
    );
    assert_eq!(
        sha256_file(b"abc"),
        "ba7816bf8f01cfea414140de5dae2223b00361a396177a9cb410ff61f20015ad"
    );
    assert_eq!(
        ChecksumAlgo::Sha384.digest_hex(b""),
        "38b060a751ac96384cd9327eb1b1e36a21fdb71114be07434c0cc7bf63f6e1da\
274edebfe76f65fbd51ad2f14898b95b"
    );
}

#[test]
fn own_digest_tells_its_algorithm() {
    for algo in [
        ChecksumAlgo::Sha224,
        ChecksumAlgo::Sha256,
        ChecksumAlgo::Sha384,
        ChecksumAlgo::Sha512,
    ] {
        assert_eq!(digest_algo(&algo.digest_hex(b"some bytes")), Some(algo));
    }
    assert_eq!(ChecksumAlgo::Sha384.label(), "sha384");
    assert_eq!(ChecksumAlgo::Sha224.label(), "sha224");
}

#[test]
fn published_digest_is_accepted() {
    let hex = ChecksumAlgo::Sha256.digest_hex(b"binary");
    let content = format!("{hex}  tool.tar.gz\n");
    assert_eq!(
        verify_checksum(&content, b"binary", "tool.tar.gz", "checksums.txt").unwrap(),
        hex
    );
    let bare = ChecksumAlgo::Sha512.digest_hex(b"binary");
    assert_eq!(
        verify_checksum(&bare, b"binary", "tool.tar.gz", "tool.tar.gz.sha512").unwrap(),
        bare
    );
}

#[test]
fn other_bytes_are_refused() {
    let hex = ChecksumAlgo::Sha256.digest_hex(b"binary");
    let content = format!("{hex}  tool.tar.gz\n");
    let err = verify_checksum(&content, b"other", "tool.tar.gz", "checksums.txt").unwrap_err();
    let got = ChecksumAlgo::Sha256.digest_hex(b"other");
    assert_eq!(
        err.message(),
        format!("Checksum mismatch for tool.tar.gz: expected {hex}, got {got}")
    );
    assert!(matches!(
        err,
        ChecksumError::Mismatch(GhrError::ChecksumMismatch { .. })
    ));
}

#[test]
fn unlisted_assets_are_refused() {
    let err = verify_checksum("abc  other\n", b"x", "tool", "SHA256SUMS").unwrap_err();
    assert!(matches!(err, ChecksumError::NotListed { .. }));
    assert_eq!(
        err.message(),
        "could not find a checksum for 'tool' in SHA256SUMS"
    );
}

#[test]
fn unknown_lengths_are_refused() {
    let err = verify_checksum("abc123  tool\n", b"x", "tool", "SHA1SUMS").unwrap_err();
    assert!(matches!(err, ChecksumError::UnknownLength { .. }));
    assert_eq!(
        err.message(),
        "unrecognized checksum for 'tool': 6-char digest in SHA1SUMS is not a known SHA-2 length"
    );
}

#[test]
fn first_listing_decides() {
    let content = "# comment\n\nword\n111 ./dist/Tool\r\n222  tool\n";
    assert_eq!(parse_checksums(content, "tool"), Some("111".to_string()));
    assert_eq!(parse_checksums(content, "word"), None);
}

#[test]
fn sidecar_names_are_recognized() {
    assert!(is_sidecar("Tool.tar.gz.SHA256", "tool.tar.gz"));
    assert!(is_sidecar("tool.digest", "tool"));
    assert!(!is_sidecar("tool.tar.gz.sha256", "tool"));
    assert!(!is_sidecar("tool.sig", "tool"));
    assert!(!is_sidecar("toolsha256", "tool"));
    assert!(!is_sidecar("tool", "tool"));
}
