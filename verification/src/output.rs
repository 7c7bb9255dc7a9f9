//! What is shown for an error.

use vstd::prelude::*;

use crate::error::GhrError;
use crate::text;

verus! {

/// What helps with an error, if anything is known to.
pub open spec fn hint_for(e: GhrError) -> Option<Seq<char>> {
    match e {
        GhrError::RateLimitExceeded { .. } => Some(
            "Set GITHUB_TOKEN or add github_token to ~/.config/ghr/config.toml to increase the rate limit."@,
        ),
        GhrError::NoCompatibleAssets { .. } => Some(
            "Try `ghr install` with `--prerelease` or check the release page manually."@,
        ),
        GhrError::ChecksumMismatch { .. } => Some(
            "Downloaded file has been removed. The release asset may be corrupted."@,
        ),
        _ => None,
    }
}

/// The text of an error and of the hint that comes with it.
pub struct ErrorReport {
    pub message: String,
    pub hint: Option<&'static str>,
}

/// What to show for an error.
pub fn print_error(e: &GhrError) -> (r: ErrorReport)
    ensures
        r.message@ == e.text(),
        text::opt_str(r.hint) == hint_for(*e),
{
    let hint = match e {
        GhrError::RateLimitExceeded { .. } => Some(
            "Set GITHUB_TOKEN or add github_token to ~/.config/ghr/config.toml to increase the rate limit.",
        ),
        GhrError::NoCompatibleAssets { .. } => Some(
            "Try `ghr install` with `--prerelease` or check the release page manually.",
        ),
        GhrError::ChecksumMismatch { .. } => Some(
            "Downloaded file has been removed. The release asset may be corrupted.",
        ),
        _ => None,
    };
    ErrorReport { message: e.message(), hint }
}

} // verus!
