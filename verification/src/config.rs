//! The configuration of the user.

use vstd::prelude::*;

use crate::paths;
use crate::state::copy_opt;
use crate::text;

verus! {

/// How the user wants to be told of updates.
#[derive(Clone, Copy, Debug, PartialEq, Eq, Structural)]
pub enum NotifyMode {
    Terminal,
    Desktop,
    Off,
}

impl Default for NotifyMode {
    fn default() -> (r: Self)
        ensures
            r == NotifyMode::Terminal,
    {
        NotifyMode::Terminal
    }
}

/// The configuration.
#[derive(Debug)]
pub struct Config {
    pub install_dir: String,
    pub github_token: Option<String>,
    pub include_prereleases: bool,
    pub check_interval_hours: u32,
    pub notify: NotifyMode,
}

/// The directory to install into if none is configured.
pub open spec fn default_dir(home: Option<Seq<char>>) -> Seq<char> {
    match home {
        Some(h) => paths::joined(h, ".local/bin"@),
        None => paths::joined("/tmp"@, ".local/bin"@),
    }
}

/// The directory to install into if none is configured: `.local/bin` in the home directory, or in
/// `/tmp` if no home is known.
pub fn default_install_dir(home: Option<&str>) -> (r: String)
    ensures
        r@ == default_dir(text::opt_str(home)),
{
    match home {
        Some(h) => paths::join(h, ".local/bin"),
        None => paths::join("/tmp", ".local/bin"),
    }
}

/// The directory of the configuration.
pub open spec fn config_dir_at(dir: Option<Seq<char>>, home: Option<Seq<char>>) -> Seq<char> {
    paths::joined(paths::user_dir(dir, home, ".config"@), "ghr"@)
}

/// The directory of the configuration: `ghr` below the configuration directory of the user, or
/// below `.config` in the home directory if that is not known.
pub fn config_dir(dir: Option<&str>, home: Option<&str>) -> (r: String)
    ensures
        r@ == config_dir_at(text::opt_str(dir), text::opt_str(home)),
{
    let base = paths::user_dir_of(dir, home, ".config");
    paths::join(base.as_str(), "ghr")
}

/// A token as it counts: an empty one is none.
pub open spec fn real_token(token: Option<String>) -> Option<String> {
    match token {
        Some(t) => if t@.len() == 0 {
            None
        } else {
            token
        },
        None => None,
    }
}

impl Config {
    /// The configuration of a user who has none.
    pub fn default_for(home: Option<&str>) -> (r: Self)
        ensures
            r.install_dir@ == default_dir(text::opt_str(home)),
            r.github_token is None,
            !r.include_prereleases,
            r.check_interval_hours == 24,
            r.notify == NotifyMode::Terminal,
    {
        Config {
            install_dir: default_install_dir(home),
            github_token: None,
            include_prereleases: false,
            check_interval_hours: 24,
            notify: NotifyMode::Terminal,
        }
    }

    /// The file of the configuration.
    pub fn config_path(dir: Option<&str>, home: Option<&str>) -> (r: String)
        ensures
            r@ == paths::joined(
                paths::user_dir(text::opt_str(dir), text::opt_str(home), ".config"@),
                "ghr/config.toml"@,
            ),
    {
        let base = paths::user_dir_of(dir, home, ".config");
        paths::join(base.as_str(), "ghr/config.toml")
    }

    /// The configuration that a file means: a leading `~` in the directory stands for the home
    /// directory, and an empty token for none.
    pub fn load(self, home: Option<&str>) -> (r: Self)
        ensures
            r.install_dir@ == paths::expanded(self.install_dir@, text::opt_str(home)),
            r.github_token == real_token(self.github_token),
            r.include_prereleases == self.include_prereleases,
            r.check_interval_hours == self.check_interval_hours,
            r.notify == self.notify,
    {
        let install_dir = paths::expand_tilde(self.install_dir.as_str(), home);
        let github_token = match self.github_token {
            Some(t) => if t.as_str().unicode_len() == 0 {
                None
            } else {
                Some(t)
            },
            None => None,
        };
        Config {
            install_dir,
            github_token,
            include_prereleases: self.include_prereleases,
            check_interval_hours: self.check_interval_hours,
            notify: self.notify,
        }
    }

    /// The configuration to write to a file: with `~` in place of the home directory.
    pub fn save(&self, home: Option<&str>) -> (r: Self)
        ensures
            r.install_dir@ == paths::shortened(self.install_dir@, text::opt_str(home)),
            r.github_token == self.github_token,
            r.include_prereleases == self.include_prereleases,
            r.check_interval_hours == self.check_interval_hours,
            r.notify == self.notify,
    {
        Config {
            install_dir: paths::shorten_home(self.install_dir.as_str(), home),
            github_token: copy_opt(&self.github_token),
            include_prereleases: self.include_prereleases,
            check_interval_hours: self.check_interval_hours,
            notify: self.notify,
        }
    }
}

/// The directory to install into by default lies in the home directory, and is the same after it
/// was written to a file and read back.
pub proof fn law_default_dir_is_restored(home: Seq<char>)
    requires
        home.len() > 0,
        home.last() != '/',
    ensures
        paths::shortened(default_dir(Some(home)), Some(home)) == "~/.local/bin"@,
        paths::expanded("~/.local/bin"@, Some(home)) == default_dir(Some(home)),
{
    reveal_strlit(".local/bin");
    reveal_strlit("~/.local/bin");
    let rest = ".local/bin"@;
    let dir = default_dir(Some(home));
    assert(dir =~= home + seq!['/'] + rest);
    assert(dir.subrange(0, home.len() as int) =~= home);
    assert(paths::below(dir, home) =~= rest);
    assert(paths::tidy(rest)) by {
        let slash = crate::text::CharClass::Only('/');
        crate::text::lemma_find_first_is(rest, slash, 6);
        crate::text::lemma_behind_last_is(rest, '/', 7);
        assert(rest.take(6).len() == 6);
        assert(rest.skip(7).len() == 3);
    }
    paths::law_home_is_restored(dir, home);
    assert(seq!['~', '/'] + rest =~= "~/.local/bin"@);
}

} // verus!
