use ghr::cli::Commands;
use ghr::repo::{parse_repo, RepoError};

#[test]
fn parse_repo_owner_slash_repo() {
    assert_eq!(
        parse_repo("BurntSushi/ripgrep").unwrap(),
        "BurntSushi/ripgrep"
    );
}

#[test]
fn parse_repo_https_url() {
    assert_eq!(
        parse_repo("https://github.com/BurntSushi/ripgrep").unwrap(),
        "BurntSushi/ripgrep"
    );
}

#[test]
fn parse_repo_url_with_trailing_slash() {
    assert_eq!(
        parse_repo("https://github.com/BurntSushi/ripgrep/").unwrap(),
        "BurntSushi/ripgrep"
    );
}

#[test]
fn parse_repo_url_with_subpath() {
    assert_eq!(
        parse_repo("https://github.com/cli/cli/releases/latest").unwrap(),
        "cli/cli"
    );
}

#[test]
fn parse_repo_http_url() {
    assert_eq!(
        parse_repo("http://github.com/sharkdp/bat").unwrap(),
        "sharkdp/bat"
    );
}

#[test]
fn parse_repo_without_scheme() {
    assert_eq!(parse_repo("github.com/sharkdp/bat").unwrap(), "sharkdp/bat");
}

#[test]
fn parse_repo_invalid_bare_string() {
    assert!(parse_repo("notarepo").is_err());
}

#[test]
fn parse_repo_invalid_url_no_repo() {
    assert!(parse_repo("https://github.com/onlyowner").is_err());
}

#[test]
fn white_space_and_slashes_are_trimmed() {
    assert_eq!(parse_repo("  a/b/ ").unwrap(), "a/b");
    assert_eq!(parse_repo("a/b///").unwrap(), "a/b");
    assert_eq!(parse_repo("https://www.github.com/a/b").unwrap(), "a/b");
    assert_eq!(parse_repo("\u{a0}a/b").unwrap(), "a/b");
}

#[test]
fn errors_name_the_input() {
    let bare = parse_repo(" a/b/c").unwrap_err();
    assert!(matches!(bare, RepoError::NotARepo { .. }));
    assert_eq!(
        bare.message(),
        "' a/b/c' is not a valid owner/repo or GitHub URL"
    );
    let url = parse_repo("https://github.com//x").unwrap_err();
    assert!(matches!(url, RepoError::NotAUrl { .. }));
    assert_eq!(url.message(), "'https://github.com//x' is not a valid GitHub URL");
}

#[test]
fn other_hosts_are_refused() {
    for input in [
        "https://gitlab.com/owner/repo",
        "http://www.gitlab.com/owner/repo",
        "https://gitlab.com",
        "https://github.com.example.org/owner/repo",
        "https://example.org/github.com/owner/repo",
        "https://github.com:443/owner/repo",
        "ftp://github.com/owner/repo",
        "owner/repo://x",
        "github.community/owner/repo",
        "github.com",
    ] {
        let refused = parse_repo(input).unwrap_err();
        assert!(matches!(refused, RepoError::NotAUrl { .. }), "{input}");
    }
    assert_eq!(
        parse_repo("https://gitlab.com/owner/repo").unwrap_err().message(),
        "'https://gitlab.com/owner/repo' is not a valid GitHub URL"
    );
    // an owner whose name begins like the host
    assert_eq!(parse_repo("github.community/repo").unwrap(), "github.community/repo");
}

#[test]
fn repos_name_themselves() {
    for input in ["a/b", "https://github.com/a/b/tree/main", "github.com/a/b"] {
        let repo = parse_repo(input).unwrap();
        assert_eq!(repo.matches('/').count(), 1);
        assert_eq!(parse_repo(&repo).unwrap(), repo);
    }
}

#[test]
fn commands_are_resolved() {
    let install = Commands::Install {
        repo: "https://github.com/cli/cli/releases".to_string(),
        tag: Some("v1".to_string()),
        alias: None,
        to: None,
        prerelease: true,
        yes: false,
    };
    match install.resolve().unwrap() {
        Commands::Install {
            repo,
            tag,
            prerelease,
            ..
        } => {
            assert_eq!(repo, "cli/cli");
            assert_eq!(tag.as_deref(), Some("v1"));
            assert!(prerelease);
        }
        _ => unreachable!(),
    }
    let adopt = Commands::Adopt {
        path: "/bin/x".to_string(),
        repo: "nothing".to_string(),
    };
    assert!(adopt.resolve().is_err());
    assert!(matches!(Commands::Clean.resolve(), Ok(Commands::Clean)));
}
