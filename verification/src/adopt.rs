//! Managing a binary that is already on disk.

use vstd::prelude::*;

use crate::github::types::Timestamp;
use crate::paths;
use crate::state;
use crate::state::{State, ToolEntry};

verus! {

/// What is known of a path.
pub struct FileFacts {
    pub exists: bool,
    pub is_file: bool,
    pub executable: bool,
}

/// Whether a binary can be adopted.
#[derive(Debug)]
pub enum Adoption {
    /// It cannot, for this reason.
    Refuse { error: String },
    /// A tool of its name is already managed.
    Managed { warning: String },
    /// It can, under this name.
    Adopt { name: String },
}

/// Why a path cannot be adopted, if it cannot.
pub open spec fn refusal(path: Seq<char>, facts: FileFacts) -> Option<Seq<char>> {
    if !facts.exists {
        Some("path does not exist: "@ + path)
    } else if !facts.is_file {
        Some("path is not a file: "@ + path)
    } else if !facts.executable {
        Some(path + " is not executable"@)
    } else if paths::file_name_of(path) is None {
        Some("could not determine binary name from path"@)
    } else {
        None
    }
}

/// The warning that a tool is already managed.
pub open spec fn managed_warning(name: Seq<char>) -> Seq<char> {
    name + " is already managed by ghr. Use `ghr update "@ + name + "` instead."@
}

/// Whether the binary at a path can be adopted: it has to be a file that can be run, with a name
/// that no managed tool has.
pub fn cmd_adopt(path: &str, facts: &FileFacts, state: &State) -> (r: Adoption)
    ensures
        match (refusal(path@, *facts)) {
            Some(e) => r matches Adoption::Refuse { error } && error@ == e,
            None => ({
                let name = paths::file_name_of(path@)->0;
                if state::holds_key(state.pairs(), name) {
                    r matches Adoption::Managed { warning } && warning@ == managed_warning(name)
                } else {
                    r matches Adoption::Adopt { name: n } && n@ == name
                }
            }),
        },
{
    if !facts.exists {
        let mut error = "path does not exist: ".to_owned();
        error.append(path);
        return Adoption::Refuse { error };
    }
    if !facts.is_file {
        let mut error = "path is not a file: ".to_owned();
        error.append(path);
        return Adoption::Refuse { error };
    }
    if !facts.executable {
        let mut error = path.to_owned();
        error.append(" is not executable");
        return Adoption::Refuse { error };
    }
    let name = match paths::file_name(path) {
        Some(n) => n,
        None => {
            return Adoption::Refuse {
                error: "could not determine binary name from path".to_owned(),
            };
        },
    };
    if state.contains(name) {
        let mut warning = name.to_owned();
        warning.append(" is already managed by ghr. Use `ghr update ");
        warning.append(name);
        warning.append("` instead.");
        return Adoption::Managed { warning };
    }
    Adoption::Adopt { name: name.to_owned() }
}

/// What is recorded of a binary that is adopted. Its release is not known, so that every release
/// counts as newer; it stays where it is.
pub fn adopted_entry(
    repo: &str,
    name: &str,
    install_path: &str,
    sha256: Option<String>,
    now: Timestamp,
) -> (r: ToolEntry)
    ensures
        r.repo@ == repo@,
        r.installed_tag@ == "unknown"@,
        r.install_path@ == install_path@,
        r.binary_name@ == name@,
        r.asset_pattern@ == ""@,
        r.installed_sha256 == sha256,
        r.etag is None,
        r.last_checked == Some(now),
        r.published_at is None,
        forall|t: Timestamp| state::behind(r, t),
{
    ToolEntry {
        repo: repo.to_owned(),
        installed_tag: "unknown".to_owned(),
        install_path: install_path.to_owned(),
        binary_name: name.to_owned(),
        asset_pattern: "".to_owned(),
        installed_sha256: sha256,
        etag: None,
        last_checked: Some(now),
        published_at: None,
    }
}

/// What to say of a binary that was adopted.
pub fn adopted_note(name: &str, repo: &str) -> (r: String)
    ensures
        r@ == "Adopted "@ + name@ + " ("@ + repo@ + "). Run `ghr update "@ + name@
            + "` to detect the current version."@,
{
    let mut s = "Adopted ".to_owned();
    s.append(name);
    s.append(" (");
    s.append(repo);
    s.append("). Run `ghr update ");
    s.append(name);
    s.append("` to detect the current version.");
    s
}

} // verus!
