//! The commands of the program.

use vstd::prelude::*;

use crate::repo;
use crate::repo::{parse_repo, Named, RepoError};

verus! {

/// What the user asks for, and how much to tell.
#[derive(Debug)]
pub struct Cli {
    /// How often more detail was asked for.
    pub verbose: u8,
    /// Only warnings and errors are to be shown.
    pub quiet: bool,
    pub command: Commands,
}

/// What the user asks for.
#[derive(Debug)]
#[allow(inconsistent_fields)]
pub enum Commands {
    /// Fetch the releases of a repository, pick one, and install the asset that fits.
    Install {
        repo: String,
        tag: Option<String>,
        alias: Option<String>,
        to: Option<String>,
        prerelease: bool,
        yes: bool,
    },
    /// Show the tools that are managed.
    List { json: bool },
    /// Update one tool or all of them to the latest release.
    Update { name: Option<String>, all: bool, force: bool },
    /// Look for updates.
    Check { json: bool },
    /// Manage a binary that is already installed.
    Adopt { path: String, repo: String },
    /// Uninstall a tool.
    Remove { name: String, yes: bool },
    /// Install what the manifest lists and is missing.
    Sync { prune: bool, yes: bool },
    /// Remove the download cache.
    Clean,
    /// Remove the program's own files.
    Uninstall,
    /// Write a timer that looks for updates.
    SetupTimer,
    /// Remove that timer.
    DisableTimer,
}

/// The text that names the repository of a command, if the command has one.
pub open spec fn repo_of(command: Commands) -> Option<Seq<char>> {
    match command {
        Commands::Install { repo, .. } => Some(repo@),
        Commands::Adopt { repo, .. } => Some(repo@),
        _ => None,
    }
}

/// The command is the same but for the repository, which is this one.
pub open spec fn with_repo(before: Commands, after: Commands, found: Seq<char>) -> bool {
    match (before, after) {
        (
            Commands::Install { tag, alias, to, prerelease, yes, .. },
            Commands::Install { repo, tag: t, alias: a, to: o, prerelease: p, yes: y },
        ) => repo@ == found && t == tag && a == alias && o == to && p == prerelease && y == yes,
        (Commands::Adopt { path, .. }, Commands::Adopt { repo, path: p }) => repo@ == found && p
            == path,
        _ => false,
    }
}

impl Commands {
    /// The command with its repository in the form `owner/repo`, or the error if the user named
    /// none. Commands without a repository stay as they are.
    pub fn resolve(self) -> (r: Result<Commands, RepoError>)
        ensures
            match (repo_of(self)) {
                None => r matches Ok(c) && c == self,
                Some(input) => match (repo::named(input)) {
                    Named::Repo(found) => r matches Ok(c) && with_repo(self, c, found),
                    Named::NoRepo => r matches Err(RepoError::NotARepo { input: i }) && i@
                        == input,
                    Named::NoUrl => r matches Err(RepoError::NotAUrl { input: i }) && i@ == input,
                },
            },
    {
        match self {
            Commands::Install { repo, tag, alias, to, prerelease, yes } => match parse_repo(
                repo.as_str(),
            ) {
                Ok(repo) => Ok(Commands::Install { repo, tag, alias, to, prerelease, yes }),
                Err(e) => Err(e),
            },
            Commands::Adopt { path, repo } => match parse_repo(repo.as_str()) {
                Ok(repo) => Ok(Commands::Adopt { path, repo }),
                Err(e) => Err(e),
            },
            other => Ok(other),
        }
    }
}

} // verus!
