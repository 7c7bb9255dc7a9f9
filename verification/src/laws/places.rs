//! Paths, the directories of the user, and the configuration.

use vstd::prelude::*;

use crate::config;
use crate::config::{Config, NotifyMode};
use crate::installer::download;
use crate::manifest::Manifest;
use crate::paths;
use crate::state::{State, ToolEntry};
use crate::text;
use crate::timer;
use crate::uninstall;

verus! {

/// A path put behind a directory comes after one separator; one that is absolute takes the place of the
/// directory.
pub proof fn law_one_separator_joins(base: &str, rest: &str, r: String)
    requires
        call_ensures(paths::join, (base, rest), r),
    ensures
        rest@.len() > 0 && rest@[0] == '/' ==> r@ == rest@,
        (rest@.len() == 0 || rest@[0] != '/') && base@.len() > 0 && base@.last() != '/' ==> r@
            == base@ + seq!['/'] + rest@,
        (rest@.len() == 0 || rest@[0] != '/') && base@.len() > 0 && base@.last() == '/' ==> r@
            == base@ + rest@,
        (rest@.len() == 0 || rest@[0] != '/') && base@.len() == 0 ==> r@ == rest@,
{
    if base@.len() == 0 {
        assert(base@ + rest@ =~= rest@);
    }
}

/// The name of a file is what stands behind its directory, the directory what stands before it, and
/// the path below the directory the name again. A path is the same as itself.
pub proof fn law_directory_and_name(
    path: &str,
    base: &str,
    name: Seq<char>,
    file: Option<&str>,
    above: Option<&str>,
    below: Option<&str>,
    same: bool,
)
    requires
        call_ensures(paths::file_name, (path,), file),
        call_ensures(paths::parent, (path,), above),
        call_ensures(paths::strip_prefix, (path, base), below),
        call_ensures(paths::same_path, (path, path), same),
        path@ == base@ + seq!['/'] + name,
        base@.len() > 0,
        base@.last() != '/',
        text::behind_last(base@, '/') != seq!['.'],
        paths::plain_name(name),
    ensures
        file matches Some(f) && f@ == name,
        above matches Some(d) && d@ == base@,
        below matches Some(b) && b@ == name,
        same,
{
    let p = path@;
    let n = base@.len() as int;
    crate::installer::law_repo_names_the_binary(base@, name);
    assert(text::behind_last(p, '/') == name);
    assert(name.contains(name[0]) && name.contains(name.last()));
    assert(paths::dir_part(p) =~= base@);
    assert(p.contains('/')) by {
        assert(p[n] == '/');
    }
    assert(p.subrange(0, n) =~= base@);
    assert(paths::below(p, base@) =~= name);
    let slash = text::CharClass::Only('/');
    assert(paths::tidy(name)) by {
        assert forall|i: int| 0 <= i < name.len() implies name[i] != '/' by {
            assert(name.contains(name[i]));
        }
        text::lemma_find_first_is(name, slash, name.len() as int);
        text::lemma_behind_last_is(name, '/', 0);
        assert(name.take(name.len() as int) =~= name);
        assert(name.skip(0) =~= name);
    }
}

/// A path below the home directory is written with `~`, and read back it is the same path. A path that
/// begins otherwise is read as it is; without a home directory every path stays.
pub proof fn law_tilde_is_the_home(
    path: &str,
    home: Option<&str>,
    rest: Seq<char>,
    short: String,
    again: &str,
    back: String,
    plain: String,
)
    requires
        call_ensures(paths::shorten_home, (path, home), short),
        call_ensures(paths::expand_tilde, (again, home), back),
        call_ensures(paths::expand_tilde, (path, home), plain),
        again@ == short@,
        paths::tidy(rest),
        home matches Some(h) ==> h@.len() > 0 && h@.last() != '/',
    ensures
        home is None ==> short@ == path@ && plain@ == path@,
        path@.len() > 0 && path@[0] != '~' ==> plain@ == path@,
        home matches Some(h) ==> (path@ == h@ + seq!['/'] + rest ==> short@ == seq!['~', '/'] + rest
            && back@ == path@),
        home matches Some(h) ==> (path@ == seq!['~', '/'] + rest ==> plain@ == h@ + seq!['/'] + rest),
{
    let tilde = seq!['~'];
    if path@.len() > 0 && path@[0] != '~' {
        if paths::lies_under(path@, tilde) {
            assert(path@.subrange(0, 1)[0] == path@[0]);
        }
        assert(path@ != tilde);
    }
    if let Some(h) = home {
        if path@ == h@ + seq!['/'] + rest {
            let n = h@.len() as int;
            assert(path@.subrange(0, n) =~= h@);
            assert(paths::below(path@, h@) =~= rest);
            paths::law_home_is_restored(path@, h@);
        }
        if path@ == seq!['~', '/'] + rest {
            assert(path@.subrange(0, 1) =~= tilde);
            assert(paths::below(path@, tilde) =~= rest);
            assert(path@ != tilde);
        }
    }
}

/// The directory of the user that is known counts; without one, that below the home directory.
pub proof fn law_known_directory_counts(
    dir: Option<&str>,
    home: Option<&str>,
    below: &str,
    r: String,
)
    requires
        call_ensures(paths::user_dir_of, (dir, home, below), r),
        below@.len() > 0,
        below@[0] != '/',
    ensures
        dir matches Some(d) ==> r@ == d@,
        dir is None ==> (home matches Some(h) ==> h@.len() > 0 && h@.last() != '/' ==> r@ == h@ + seq!['/']
            + below@),
        dir is None && home is None ==> r@ == below@,
{
    if dir is None && home is None {
        assert(Seq::<char>::empty() + below@ =~= below@);
    }
}

/// What lies below the directory that is known or, without one, below the one in the home directory.
pub open spec fn lies_in(
    r: Seq<char>,
    dir: Option<&str>,
    home: Option<&str>,
    in_home: Seq<char>,
    file: Seq<char>,
) -> bool {
    match dir {
        Some(d) => d@.len() > 0 && d@.last() != '/' ==> r == d@ + seq!['/'] + file,
        None => match home {
            Some(h) => h@.len() > 0 && h@.last() != '/' ==> r == h@ + seq!['/'] + in_home
                + seq!['/'] + file,
            None => r == in_home + seq!['/'] + file,
        },
    }
}

proof fn lemma_lies_in(dir: Option<&str>, home: Option<&str>, in_home: Seq<char>, file: Seq<char>)
    requires
        in_home.len() > 0,
        in_home[0] != '/',
        in_home.last() != '/',
        file.len() > 0,
        file[0] != '/',
    ensures
        lies_in(
            paths::joined(
                paths::user_dir(text::opt_str(dir), text::opt_str(home), in_home),
                file,
            ),
            dir,
            home,
            in_home,
            file,
        ),
{
    assert(Seq::<char>::empty() + in_home =~= in_home);
    if let Some(h) = home {
        assert((h@ + seq!['/'] + in_home).last() == in_home.last());
    }
}

/// The files and directories of the program lie at their places below the directories of the user.
pub proof fn law_own_files_have_their_places(
    dir: Option<&str>,
    home: Option<&str>,
    config_dir: String,
    config_file: String,
    manifest_file: String,
    state_file: String,
    lock: String,
    logs: String,
    cache: String,
    units: String,
)
    requires
        call_ensures(config::config_dir, (dir, home), config_dir),
        call_ensures(Config::config_path, (dir, home), config_file),
        call_ensures(Manifest::manifest_path, (dir, home), manifest_file),
        call_ensures(State::state_path, (dir, home), state_file),
        call_ensures(uninstall::lock_path, (dir, home), lock),
        call_ensures(uninstall::log_dir, (dir, home), logs),
        call_ensures(download::cache_dir, (dir, home), cache),
        call_ensures(timer::systemd_user_dir, (dir, home), units),
    ensures
        lies_in(config_dir@, dir, home, ".config"@, "ghr"@),
        lies_in(config_file@, dir, home, ".config"@, "ghr/config.toml"@),
        manifest_file@ == config_dir@ + "/manifest.toml"@,
        lies_in(state_file@, dir, home, ".local/share"@, "ghr/state.toml"@),
        lies_in(lock@, dir, home, ".local/share"@, "binto/.lock"@),
        lies_in(logs@, dir, home, ".local/share"@, "ghr/logs"@),
        lies_in(cache@, dir, home, ".cache"@, "ghr"@),
        lies_in(units@, dir, home, ".config"@, "systemd/user"@),
{
    reveal_strlit(".config");
    reveal_strlit(".local/share");
    reveal_strlit(".cache");
    reveal_strlit("ghr");
    reveal_strlit("ghr/config.toml");
    reveal_strlit("manifest.toml");
    reveal_strlit("/manifest.toml");
    reveal_strlit("ghr/state.toml");
    reveal_strlit("binto/.lock");
    reveal_strlit("ghr/logs");
    reveal_strlit("systemd/user");
    lemma_lies_in(dir, home, ".config"@, "ghr"@);
    lemma_lies_in(dir, home, ".config"@, "ghr/config.toml"@);
    assert(config_dir@.last() == 'r');
    assert(config_dir@ + seq!['/'] + "manifest.toml"@ =~= config_dir@ + "/manifest.toml"@);
    lemma_lies_in(dir, home, ".local/share"@, "ghr/state.toml"@);
    lemma_lies_in(dir, home, ".local/share"@, "binto/.lock"@);
    lemma_lies_in(dir, home, ".local/share"@, "ghr/logs"@);
    lemma_lies_in(dir, home, ".cache"@, "ghr"@);
    lemma_lies_in(dir, home, ".config"@, "systemd/user"@);
}

/// A download lies in the cache under its own name.
pub proof fn law_download_lies_in_the_cache(cache: &str, name: &str, r: String)
    requires
        call_ensures(download::download_to_cache, (cache, name), r),
        cache@.len() > 0,
        cache@.last() != '/',
        paths::plain_name(name@),
    ensures
        r@ == cache@ + seq!['/'] + name@,
{
    assert(name@.contains(name@[0]));
}

/// A tool is installed again where it is.
pub proof fn law_tool_stays_where_it_is(entry: &ToolEntry, fallback: &str, dir: Seq<char>, r: &str)
    requires
        call_ensures(ToolEntry::install_dir, (entry, fallback), r),
        paths::plain_name(entry.binary_name@),
        dir.len() > 0,
        dir.last() != '/',
        text::behind_last(dir, '/') != seq!['.'],
        entry.install_path@ == dir + seq!['/'] + entry.binary_name@,
    ensures
        r@ == dir,
{
    assert(entry.binary_name@.contains(entry.binary_name@[0]));
    assert(entry.install_path@ =~= paths::joined(dir, entry.binary_name@));
    crate::installer::law_updates_stay_in_place(*entry, dir, fallback@);
}

/// The configuration of a user who has none: everyday checks, a word in the terminal, no token, no
/// pre-releases, and binaries below the home directory.
pub proof fn law_default_configuration(home: Option<&str>, dir: String, r: Config)
    requires
        call_ensures(Config::default_for, (home,), r),
        call_ensures(config::default_install_dir, (home,), dir),
    ensures
        r.install_dir@ == dir@,
        home matches Some(h) ==> h@.len() > 0 && h@.last() != '/' ==> dir@ == h@ + seq!['/']
            + ".local/bin"@,
        home is None ==> dir@ == "/tmp/.local/bin"@,
        r.github_token is None,
        !r.include_prereleases,
        r.check_interval_hours == 24,
        r.notify == NotifyMode::Terminal,
{
    reveal_strlit(".local/bin");
    reveal_strlit("/tmp");
    reveal_strlit("/tmp/.local/bin");
    if home is None {
        assert("/tmp"@ + seq!['/'] + ".local/bin"@ =~= "/tmp/.local/bin"@);
    }
}

/// A configuration that is read has the directory with the home in place of `~`, an empty token is
/// none, and all else is as it stands in the file.
pub proof fn law_configuration_is_read(
    c: Config,
    dir: &str,
    home: Option<&str>,
    expanded: String,
    r: Config,
)
    requires
        call_ensures(Config::load, (c, home), r),
        dir@ == c.install_dir@,
        call_ensures(paths::expand_tilde, (dir, home), expanded),
    ensures
        r.install_dir@ == expanded@,
        r.github_token is None <==> c.github_token is None || c.github_token->0@.len() == 0,
        r.github_token is Some ==> r.github_token == c.github_token,
        r.include_prereleases == c.include_prereleases,
        r.check_interval_hours == c.check_interval_hours,
        r.notify == c.notify,
{
}

/// A configuration that is written has the directory with `~` in place of the home, and all else as it
/// is.
pub proof fn law_configuration_is_written(
    c: &Config,
    dir: &str,
    home: Option<&str>,
    shortened: String,
    r: Config,
)
    requires
        call_ensures(Config::save, (c, home), r),
        dir@ == c.install_dir@,
        call_ensures(paths::shorten_home, (dir, home), shortened),
    ensures
        r.install_dir@ == shortened@,
        r.github_token == c.github_token,
        r.include_prereleases == c.include_prereleases,
        r.check_interval_hours == c.check_interval_hours,
        r.notify == c.notify,
{
}

/// The units lie in the directory of the units; the service runs the check with the program, and the
/// timer starts it every day.
pub proof fn law_timer_runs_the_check(
    exe: &str,
    dir: Option<&str>,
    home: Option<&str>,
    units: String,
    service: String,
    daily: &'static str,
    r: (timer::UnitFile, timer::UnitFile),
)
    requires
        call_ensures(timer::cmd_setup_timer, (exe, dir, home), r),
        call_ensures(timer::service_content, (exe,), service),
        call_ensures(timer::timer_content, (), daily),
        call_ensures(timer::systemd_user_dir, (dir, home), units),
    ensures
        r.0.content@ == service@,
        r.1.content@ == daily@,
        r.0.path@ == units@ + "/ghr.service"@,
        r.1.path@ == units@ + "/ghr.timer"@,
        r.0.content@
            == "[Unit]\nDescription=ghr update check\n\n[Service]\nType=oneshot\nExecStart="@ + exe@
            + " check\n"@,
        r.1.content@
            == "[Unit]\nDescription=Run ghr update check periodically\n\n[Timer]\nOnCalendar=daily\nPersistent=true\n\n[Install]\nWantedBy=timers.target\n"@,
{
    reveal_strlit("/ghr.service");
    reveal_strlit("/ghr.timer");
    reveal_strlit("ghr.service");
    reveal_strlit("ghr.timer");
    reveal_strlit("systemd/user");
    assert(units@.len() > 0 && units@.last() == 'r');
    assert(units@ + seq!['/'] + "ghr.service"@ =~= units@ + "/ghr.service"@);
    assert(units@ + seq!['/'] + "ghr.timer"@ =~= units@ + "/ghr.timer"@);
}

/// A file of the timer that exists is removed, and one that does not is warned of; if neither exists,
/// there is nothing to do.
pub proof fn law_only_existing_units_are_removed(
    timer_path: &str,
    timer_exists: bool,
    service_path: &str,
    service_exists: bool,
    r: Option<(timer::DisableStep, timer::DisableStep)>,
)
    requires
        call_ensures(
            timer::cmd_disable_timer,
            (timer_path, timer_exists, service_path, service_exists),
            r,
        ),
    ensures
        r is Some <==> timer_exists || service_exists,
        r matches Some(steps) ==> {
            &&& match steps.0 {
                timer::DisableStep::Remove { path, note } => timer_exists && path@ == timer_path@
                    && note@ == "Removed "@ + timer_path@,
                timer::DisableStep::Missing { note } => !timer_exists && note@ == timer_path@
                    + " not found, skipping."@,
            }
            &&& match steps.1 {
                timer::DisableStep::Remove { path, note } => service_exists && path@ == service_path@
                    && note@ == "Removed "@ + service_path@,
                timer::DisableStep::Missing { note } => !service_exists && note@ == service_path@
                    + " not found, skipping."@,
            }
        },
{
}

// ---- Removing the program's own files ----------------------------------------------------------------

/// Each option removes its own: the binaries, the logs, the directory of the state, the manifest or the
/// configuration.
pub proof fn law_options_remove_their_own(
    option: uninstall::UninstallOption,
    own: &uninstall::OwnPaths,
    state_dir: Seq<char>,
    file: Seq<char>,
    r: Option<uninstall::Step>,
)
    requires
        call_ensures(uninstall::run_option, (option, own), r),
        own.state@ == state_dir + seq!['/'] + file,
        state_dir.len() > 0,
        state_dir.last() != '/',
        text::behind_last(state_dir, '/') != seq!['.'],
        paths::plain_name(file),
    ensures
        match option {
            uninstall::UninstallOption::Binaries => r matches Some(uninstall::Step::Tools),
            uninstall::UninstallOption::Logs => r matches Some(
                uninstall::Step::Dir { path, note: Some(n) },
            ) && path@ == own.logs@ && n@ == "Removed logs"@,
            uninstall::UninstallOption::Data => r matches Some(
                uninstall::Step::Dir { path, note: Some(n) },
            ) && path@ == state_dir && n@ == "Deleted "@ + state_dir,
            uninstall::UninstallOption::Manifest => r matches Some(
                uninstall::Step::File { path, note: Some(n) },
            ) && path@ == own.manifest@ && n@ == "Removed manifest file"@,
            uninstall::UninstallOption::Config => r matches Some(
                uninstall::Step::File { path, note: Some(n) },
            ) && path@ == own.config@ && n@ == "Removed config file"@,
        },
{
    let p = own.state@;
    crate::installer::law_repo_names_the_binary(state_dir, file);
    assert(text::behind_last(p, '/') == file);
    assert(paths::dir_part(p) =~= state_dir);
    assert(p.contains('/')) by {
        assert(p[state_dir.len() as int] == '/');
    }
}

/// Five options are offered: the binaries, the logs, the data, the manifest and the configuration.
pub proof fn law_options_are_offered_in_order(r: Vec<uninstall::UninstallOption>)
    requires
        call_ensures(uninstall::uninstall_options, (), r),
    ensures
        r@.len() == 5,
        r@[0] == uninstall::UninstallOption::Binaries,
        r@[1] == uninstall::UninstallOption::Logs,
        r@[2] == uninstall::UninstallOption::Data,
        r@[3] == uninstall::UninstallOption::Manifest,
        r@[4] == uninstall::UninstallOption::Config,
{
}

/// Nothing is planned exactly if nothing was selected. Else each selected option is run, in the order of
/// the selection, and at last the state and the lock are removed without a word.
pub proof fn law_selected_options_are_run(
    selection: &[usize],
    own: &uninstall::OwnPaths,
    all: Vec<uninstall::UninstallOption>,
    r: Option<uninstall::UninstallPlan>,
    i: int,
)
    requires
        call_ensures(uninstall::cmd_uninstall, (selection, own), r),
        call_ensures(uninstall::uninstall_options, (), all),
        forall|k: int| 0 <= k < selection@.len() ==> (#[trigger] selection@[k]) < 5,
    ensures
        r is None <==> selection@.len() == 0,
        r matches Some(plan) ==> {
            &&& plan.steps@.len() == selection@.len()
            &&& 0 <= i < selection@.len() ==> plan.steps@[i] == all@[selection@[i] as int]
            &&& plan.always@.len() == 2
            &&& plan.always@[0] matches uninstall::Step::File { path, note } && path@ == own.state@
                && note is None
            &&& plan.always@[1] matches uninstall::Step::File { path, note } && path@ == own.lock@
                && note is None
        },
{
    if let Some(plan) = r {
        if 0 <= i < selection@.len() {
            assert(plan.steps@[i] == uninstall::options()[selection@[i] as int]);
        }
    }
}

/// Each option says what it removes.
pub proof fn law_options_say_what_they_remove(option: uninstall::UninstallOption, r: &'static str)
    requires
        call_ensures(uninstall::UninstallOption::label, (option,), r),
    ensures
        r@ == match option {
            uninstall::UninstallOption::Binaries => "Remove installed binaries"@,
            uninstall::UninstallOption::Logs => "Remove logs"@,
            uninstall::UninstallOption::Data =>
                "Nuke data directory altogether (binaries, logs, state)"@,
            uninstall::UninstallOption::Manifest => "Remove manifest file"@,
            uninstall::UninstallOption::Config => "Remove config file"@,
        },
{
}

} // verus!
