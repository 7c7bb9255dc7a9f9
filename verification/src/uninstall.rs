//! Removing tools, and removing the program's own files.

use vstd::prelude::*;

use crate::error::GhrError;
use crate::paths;
use crate::state;
use crate::state::{State, ToolEntry};
use crate::text;

verus! {

// ---- One tool -------------------------------------------------------------------------------------

/// A tool that is to be removed, and what to ask before.
#[derive(Debug)]
pub struct Removal {
    pub entry: ToolEntry,
    pub prompt: String,
}

/// What to ask before a tool is removed.
pub open spec fn remove_prompt(name: Seq<char>, entry: ToolEntry) -> Seq<char> {
    "Remove "@ + name + " ("@ + entry.installed_tag@ + ") from "@ + entry.install_path@ + " ?"@
}

/// The tool that is to be removed, or the error that it is not managed.
pub fn cmd_remove(state: &State, name: &str) -> (r: Result<Removal, GhrError>)
    ensures
        match (state::looked_up(state.pairs(), name@)) {
            Some(e) => r matches Ok(removal) && removal.entry == e && removal.prompt@
                == remove_prompt(name@, e),
            None => r matches Err(GhrError::UnknownTool { name: n }) && n@ == name@,
        },
{
    match state.require(name) {
        Ok(e) => {
            let entry = e.clone();
            let mut prompt = "Remove ".to_owned();
            prompt.append(name);
            prompt.append(" (");
            prompt.append(entry.installed_tag.as_str());
            prompt.append(") from ");
            prompt.append(entry.install_path.as_str());
            prompt.append(" ?");
            Ok(Removal { entry, prompt })
        },
        Err(e) => Err(e),
    }
}

/// Take a tool whose binary is gone out of the state, or the error that it is not managed.
pub fn remove_tool(state: &mut State, name: &str) -> (r: Result<ToolEntry, GhrError>)
    ensures
        final(state).pairs() == state::without(old(state).pairs(), name@),
        match (state::looked_up(old(state).pairs(), name@)) {
            Some(e) => r matches Ok(entry) && entry == e,
            None => r matches Err(GhrError::UnknownTool { name: n }) && n@ == name@,
        },
{
    match state.remove(name) {
        Some(e) => Ok(e),
        None => Err(GhrError::UnknownTool { name: name.to_owned() }),
    }
}

// ---- The program's own files -----------------------------------------------------------------------

/// The file of the lock: below the data directory of the user, or below `.local/share` in the home
/// directory if that is not known.
pub fn lock_path(data_dir: Option<&str>, home: Option<&str>) -> (r: String)
    ensures
        r@ == paths::joined(
            paths::user_dir(text::opt_str(data_dir), text::opt_str(home), ".local/share"@),
            "binto/.lock"@,
        ),
{
    let base = paths::user_dir_of(data_dir, home, ".local/share");
    paths::join(base.as_str(), "binto/.lock")
}

/// The directory of the logs: below the data directory of the user.
pub fn log_dir(data_dir: Option<&str>, home: Option<&str>) -> (r: String)
    ensures
        r@ == paths::joined(
            paths::user_dir(text::opt_str(data_dir), text::opt_str(home), ".local/share"@),
            "ghr/logs"@,
        ),
{
    let base = paths::user_dir_of(data_dir, home, ".local/share");
    paths::join(base.as_str(), "ghr/logs")
}

/// What can be removed.
#[derive(Clone, Copy, Debug, PartialEq, Eq, Structural)]
pub enum UninstallOption {
    Binaries,
    Logs,
    Data,
    Manifest,
    Config,
}

/// The options in the order in which they are offered.
pub open spec fn options() -> Seq<UninstallOption> {
    seq![
        UninstallOption::Binaries,
        UninstallOption::Logs,
        UninstallOption::Data,
        UninstallOption::Manifest,
        UninstallOption::Config,
    ]
}

/// The options in the order in which they are offered.
pub fn uninstall_options() -> (r: Vec<UninstallOption>)
    ensures
        r@ == options(),
{
    let mut out: Vec<UninstallOption> = Vec::new();
    out.push(UninstallOption::Binaries);
    out.push(UninstallOption::Logs);
    out.push(UninstallOption::Data);
    out.push(UninstallOption::Manifest);
    out.push(UninstallOption::Config);
    assert(out@ =~= options());
    out
}

impl UninstallOption {
    /// What the option says.
    pub open spec fn text(self) -> Seq<char> {
        match self {
            UninstallOption::Binaries => "Remove installed binaries"@,
            UninstallOption::Logs => "Remove logs"@,
            UninstallOption::Data => "Nuke data directory altogether (binaries, logs, state)"@,
            UninstallOption::Manifest => "Remove manifest file"@,
            UninstallOption::Config => "Remove config file"@,
        }
    }

    /// What the option says.
    pub fn label(self) -> (r: &'static str)
        ensures
            r@ == self.text(),
    {
        match self {
            UninstallOption::Binaries => "Remove installed binaries",
            UninstallOption::Logs => "Remove logs",
            UninstallOption::Data => "Nuke data directory altogether (binaries, logs, state)",
            UninstallOption::Manifest => "Remove manifest file",
            UninstallOption::Config => "Remove config file",
        }
    }
}

/// Where the program keeps its files.
#[derive(Debug)]
pub struct OwnPaths {
    pub state: String,
    pub lock: String,
    pub logs: String,
    pub manifest: String,
    pub config: String,
}

/// Something to remove, and what to say when it is gone.
#[derive(Debug)]
pub enum Step {
    /// All tools, each with its binary.
    Tools,
    File { path: String, note: Option<String> },
    Dir { path: String, note: Option<String> },
}

/// What an option removes: nothing, for the data directory, if the state has no parent.
pub open spec fn step_of(option: UninstallOption, own: OwnPaths) -> Option<(
    bool,
    Seq<char>,
    Seq<char>,
)> {
    match option {
        UninstallOption::Binaries => None,
        UninstallOption::Logs => Some((true, own.logs@, "Removed logs"@)),
        UninstallOption::Data => match paths::parent_of(own.state@) {
            Some(dir) => Some((true, dir, "Deleted "@ + dir)),
            None => None,
        },
        UninstallOption::Manifest => Some((false, own.manifest@, "Removed manifest file"@)),
        UninstallOption::Config => Some((false, own.config@, "Removed config file"@)),
    }
}

/// The step removes this: a directory or a file, with a note.
pub open spec fn step_is(step: Step, dir: bool, path: Seq<char>, note: Option<Seq<char>>) -> bool {
    match step {
        Step::Tools => false,
        Step::File { path: p, note: n } => !dir && p@ == path
            && text::opt_string(n) == note,
        Step::Dir { path: p, note: n } => dir && p@ == path
            && text::opt_string(n) == note,
    }
}

/// What an option removes.
pub fn run_option(option: UninstallOption, own: &OwnPaths) -> (r: Option<Step>)
    ensures
        option == UninstallOption::Binaries ==> r == Some(Step::Tools),
        option != UninstallOption::Binaries ==> match (step_of(option, *own)) {
            Some(s) => r matches Some(step) && step_is(step, s.0, s.1, Some(s.2)),
            None => r is None,
        },
{
    match option {
        UninstallOption::Binaries => Some(Step::Tools),
        UninstallOption::Logs => Some(
            Step::Dir { path: own.logs.clone(), note: Some("Removed logs".to_owned()) },
        ),
        UninstallOption::Data => match paths::parent(own.state.as_str()) {
            Some(dir) => {
                let mut note = "Deleted ".to_owned();
                note.append(dir);
                Some(Step::Dir { path: dir.to_owned(), note: Some(note) })
            },
            None => None,
        },
        UninstallOption::Manifest => Some(
            Step::File {
                path: own.manifest.clone(),
                note: Some("Removed manifest file".to_owned()),
            },
        ),
        UninstallOption::Config => Some(
            Step::File { path: own.config.clone(), note: Some("Removed config file".to_owned()) },
        ),
    }
}

/// What is removed for the options that were selected, and what is removed in any case: the state
/// and the lock, which come last.
pub struct UninstallPlan {
    pub steps: Vec<UninstallOption>,
    pub always: Vec<Step>,
}

/// The plan for the options that were selected, by their positions, in that order. `None` if none
/// was selected: then nothing is removed.
pub fn cmd_uninstall(selection: &[usize], own: &OwnPaths) -> (r: Option<UninstallPlan>)
    requires
        forall|i: int| 0 <= i < selection@.len() ==> (#[trigger] selection@[i]) < options().len(),
    ensures
        r is None <==> selection@.len() == 0,
        r matches Some(plan) ==> plan.steps@.len() == selection@.len() && (forall|i: int|
            0 <= i < selection@.len() ==> (#[trigger] plan.steps@[i]) == options()[selection@[i]
                as int]) && plan.always@.len() == 2 && step_is(
            plan.always@[0],
            false,
            own.state@,
            None,
        ) && step_is(plan.always@[1], false, own.lock@, None),
{
    if selection.len() == 0 {
        return None;
    }
    let all = uninstall_options();
    let mut steps: Vec<UninstallOption> = Vec::new();
    for i in 0..selection.len()
        invariant
            all@ == options(),
            forall|j: int|
                0 <= j < selection@.len() ==> (#[trigger] selection@[j]) < options().len(),
            steps@.len() == i,
            forall|j: int|
                0 <= j < i ==> (#[trigger] steps@[j]) == options()[selection@[j] as int],
    {
        assert(selection@[i as int] < options().len());
        steps.push(all[selection[i]]);
    }
    let mut always: Vec<Step> = Vec::new();
    always.push(Step::File { path: own.state.clone(), note: None });
    always.push(Step::File { path: own.lock.clone(), note: None });
    Some(UninstallPlan { steps, always })
}

} // verus!
