//! The units that look for updates on a schedule.

use vstd::prelude::*;

use crate::paths;
use crate::text;

verus! {

/// The text of the service unit.
pub open spec fn service_text(exe_path: Seq<char>) -> Seq<char> {
    "[Unit]\nDescription=ghr update check\n\n[Service]\nType=oneshot\nExecStart="@ + exe_path
        + " check\n"@
}

/// The service unit that runs the check with the program at `exe_path`.
pub fn service_content(exe_path: &str) -> (r: String)
    ensures
        r@ == service_text(exe_path@),
{
    let mut s =
        "[Unit]\nDescription=ghr update check\n\n[Service]\nType=oneshot\nExecStart=".to_owned();
    s.append(exe_path);
    s.append(" check\n");
    s
}

/// The timer unit that starts the service every day.
pub fn timer_content() -> (r: &'static str)
    ensures
        r@
            == "[Unit]\nDescription=Run ghr update check periodically\n\n[Timer]\nOnCalendar=daily\nPersistent=true\n\n[Install]\nWantedBy=timers.target\n"@,
{
    "[Unit]\nDescription=Run ghr update check periodically\n\n[Timer]\nOnCalendar=daily\nPersistent=true\n\n[Install]\nWantedBy=timers.target\n"
}

/// The directory of the user's units.
pub open spec fn unit_dir(dir: Option<Seq<char>>, home: Option<Seq<char>>) -> Seq<char> {
    paths::joined(paths::user_dir(dir, home, ".config"@), "systemd/user"@)
}

/// The directory of the user's units: below the configuration directory, or below `.config` in the
/// home directory if that is not known.
pub fn systemd_user_dir(dir: Option<&str>, home: Option<&str>) -> (r: String)
    ensures
        r@ == unit_dir(text::opt_str(dir), text::opt_str(home)),
{
    let base = paths::user_dir_of(dir, home, ".config");
    paths::join(base.as_str(), "systemd/user")
}

/// A file to write.
pub struct UnitFile {
    pub path: String,
    pub content: String,
}

/// The files of the timer: the service unit and the timer unit.
pub fn cmd_setup_timer(exe_path: &str, dir: Option<&str>, home: Option<&str>) -> (r: (
    UnitFile,
    UnitFile,
))
    ensures
        r.0.path@ == paths::joined(
            unit_dir(text::opt_str(dir), text::opt_str(home)),
            "ghr.service"@,
        ),
        r.0.content@ == service_text(exe_path@),
        r.1.path@ == paths::joined(
            unit_dir(text::opt_str(dir), text::opt_str(home)),
            "ghr.timer"@,
        ),
        r.1.content@
            == "[Unit]\nDescription=Run ghr update check periodically\n\n[Timer]\nOnCalendar=daily\nPersistent=true\n\n[Install]\nWantedBy=timers.target\n"@,
{
    let units = systemd_user_dir(dir, home);
    (
        UnitFile {
            path: paths::join(units.as_str(), "ghr.service"),
            content: service_content(exe_path),
        },
        UnitFile {
            path: paths::join(units.as_str(), "ghr.timer"),
            content: timer_content().to_owned(),
        },
    )
}

/// What to do to disable the timer.
#[derive(Debug)]
pub enum DisableStep {
    /// Remove the file, and say so.
    Remove { path: String, note: String },
    /// The file is not there; warn of it.
    Missing { note: String },
}

/// The step for one file of the timer.
pub open spec fn step_for(step: DisableStep, path: Seq<char>, exists: bool) -> bool {
    match step {
        DisableStep::Remove { path: p, note } => exists && p@ == path && note@ == "Removed "@
            + path,
        DisableStep::Missing { note } => !exists && note@ == path + " not found, skipping."@,
    }
}

/// The step for one file of the timer.
fn disable_step(path: &str, exists: bool) -> (r: DisableStep)
    ensures
        step_for(r, path@, exists),
{
    if exists {
        let mut note = "Removed ".to_owned();
        note.append(path);
        DisableStep::Remove { path: path.to_owned(), note }
    } else {
        let mut note = path.to_owned();
        note.append(" not found, skipping.");
        DisableStep::Missing { note }
    }
}

/// What to do to disable the timer, by which of its files exist: nothing if neither does, and else
/// a step for the timer and then one for the service.
pub fn cmd_disable_timer(
    timer_path: &str,
    timer_exists: bool,
    service_path: &str,
    service_exists: bool,
) -> (r: Option<(DisableStep, DisableStep)>)
    ensures
        r is None <==> !timer_exists && !service_exists,
        r matches Some(steps) ==> step_for(steps.0, timer_path@, timer_exists) && step_for(
            steps.1,
            service_path@,
            service_exists,
        ),
{
    if !timer_exists && !service_exists {
        return None;
    }
    Some((disable_step(timer_path, timer_exists), disable_step(service_path, service_exists)))
}

} // verus!
