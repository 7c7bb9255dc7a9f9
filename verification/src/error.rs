//! The errors of the package manager.

use vstd::prelude::*;

use crate::decimal;

verus! {

/// What can go wrong.
#[derive(Debug)]
pub enum GhrError {
    ApiError { status: u16, message: String },
    RateLimitExceeded { reset_time: String },
    NoCompatibleAssets { repo: String, tag: String },
    ChecksumMismatch { filename: String, expected: String, got: String },
    StateCorrupted(String),
    BinaryNotFoundInArchive,
    UnknownTool { name: String },
    InstallDirMissing { path: String },
}

impl GhrError {
    /// The text of an error.
    pub open spec fn text(self) -> Seq<char> {
        match self {
            GhrError::ApiError { status, message } => "GitHub API error "@ + decimal::decimal(
                status as nat,
            ) + ": "@ + message@,
            GhrError::RateLimitExceeded { reset_time } => "Rate limit exceeded; resets at "@
                + reset_time@,
            GhrError::NoCompatibleAssets { repo, tag } => "No Linux-compatible assets found for "@
                + repo@ + " "@ + tag@,
            GhrError::ChecksumMismatch { filename, expected, got } => "Checksum mismatch for "@
                + filename@ + ": expected "@ + expected@ + ", got "@ + got@,
            GhrError::StateCorrupted(detail) => "State file corrupted: "@ + detail@,
            GhrError::BinaryNotFoundInArchive => "Binary not found in archive after extraction"@,
            GhrError::UnknownTool { name } => "Tool '"@ + name@ + "' is not managed by ghr"@,
            GhrError::InstallDirMissing { path } => "Install directory "@ + path@
                + " does not exist and could not be created"@,
        }
    }

    /// The text to show for the error.
    pub fn message(&self) -> (r: String)
        ensures
            r@ == self.text(),
    {
        match self {
            GhrError::ApiError { status, message } => {
                let mut s = "GitHub API error ".to_owned();
                s.append(decimal::to_decimal(*status as u64).as_str());
                s.append(": ");
                s.append(message.as_str());
                s
            },
            GhrError::RateLimitExceeded { reset_time } => {
                let mut s = "Rate limit exceeded; resets at ".to_owned();
                s.append(reset_time.as_str());
                s
            },
            GhrError::NoCompatibleAssets { repo, tag } => {
                let mut s = "No Linux-compatible assets found for ".to_owned();
                s.append(repo.as_str());
                s.append(" ");
                s.append(tag.as_str());
                s
            },
            GhrError::ChecksumMismatch { filename, expected, got } => {
                let mut s = "Checksum mismatch for ".to_owned();
                s.append(filename.as_str());
                s.append(": expected ");
                s.append(expected.as_str());
                s.append(", got ");
                s.append(got.as_str());
                s
            },
            GhrError::StateCorrupted(detail) => {
                let mut s = "State file corrupted: ".to_owned();
                s.append(detail.as_str());
                s
            },
            GhrError::BinaryNotFoundInArchive => {
                "Binary not found in archive after extraction".to_owned()
            },
            GhrError::UnknownTool { name } => {
                let mut s = "Tool '".to_owned();
                s.append(name.as_str());
                s.append("' is not managed by ghr");
                s
            },
            GhrError::InstallDirMissing { path } => {
                let mut s = "Install directory ".to_owned();
                s.append(path.as_str());
                s.append(" does not exist and could not be created");
                s
            },
        }
    }
}

} // verus!
