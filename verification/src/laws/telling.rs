//! The list of the tools, the reminder, and what is said of errors.

use vstd::prelude::*;

use crate::adopt;
use crate::calendar;
use crate::decimal;
use crate::error::GhrError;
use crate::github::api::InvalidToken;
use crate::github::types;
use crate::github::types::Timestamp;
use crate::install;
use crate::installer::checksum::ChecksumError;
use crate::installer::download;
use crate::laws::picking;
use crate::laws::updating;
use crate::listing;
use crate::listing::ListRow;
use crate::manifest::Manifest;
use crate::output;
use crate::output::ErrorReport;
use crate::repo::RepoError;
use crate::state::{State, ToolEntry};
use crate::sync;
use crate::sync::{PruneRun, SyncRun};
use crate::text;
use crate::uninstall;
use crate::update;

verus! {

// ---- The reminder -----------------------------------------------------------------------------------

/// The tool was never checked, or more than this many hours ago.
pub open spec fn overdue(entry: ToolEntry, now: Timestamp, hours: u32) -> bool {
    entry.last_checked is None || types::nanos_between(now, entry.last_checked->0) > hours * 3600
        * 1_000_000_000
}

/// The tools that are counted are those that were never checked or not within the hours.
pub proof fn law_overdue_tools_are_counted(state: &State, now: Timestamp, hours: u32, r: usize) -> (order:
    Seq<int>)
    requires
        call_ensures(listing::stale_count, (state, now, hours), r),
    ensures
        picking::ascending(order, state.pairs().len()),
        order.len() == r,
        forall|i: int|
            0 <= i < state.pairs().len() ==> (#[trigger] order.contains(i) <==> overdue(
                state.pairs()[i].1,
                now,
                hours,
            )),
{
    let pairs = state.pairs();
    let f = |p: (Seq<char>, ToolEntry)| listing::stale(p.1, now, hours);
    let order = picking::lemma_kept(pairs, f);
    assert(listing::stale_among(pairs, now, hours) == pairs.filter(f).len());
    assert forall|i: int| 0 <= i < pairs.len() implies (#[trigger] order.contains(i) <==> overdue(
        pairs[i].1,
        now,
        hours,
    )) by {
        assert(f(pairs[i]) == overdue(pairs[i].1, now, hours));
    }
    order
}

/// A reminder comes exactly if a tool is overdue, and it says how many are.
pub proof fn law_reminder_says_how_many(
    state: &State,
    now: Timestamp,
    hours: u32,
    n: usize,
    r: Option<String>,
)
    requires
        call_ensures(listing::stale_banner, (state, now, hours), r),
        call_ensures(listing::stale_count, (state, now, hours), n),
    ensures
        r is Some <==> exists|i: int|
            0 <= i < state.pairs().len() && overdue((#[trigger] state.pairs()[i]).1, now, hours),
        r matches Some(t) ==> t@ == decimal::decimal(n as nat)
            + " tool(s) haven't been checked recently — run `ghr check`"@,
{
    let pairs = state.pairs();
    let order = law_overdue_tools_are_counted(state, now, hours, n);
    if n > 0 {
        assert(order.contains(order[0]));
        assert(overdue(pairs[order[0]].1, now, hours));
    }
    if exists|i: int| 0 <= i < pairs.len() && overdue((#[trigger] pairs[i]).1, now, hours) {
        let i = choose|i: int| 0 <= i < pairs.len() && overdue((#[trigger] pairs[i]).1, now, hours);
        assert(order.contains(i));
    }
}

/// The time between two moments is the same backwards, less than nothing. With one moment in a leap
/// second it is as if that second lasted twice as long, if the other moment is later in the day.
pub proof fn law_time_runs_both_ways(a: Timestamp, b: Timestamp, there: i128, back: i128)
    requires
        call_ensures(Timestamp::nanos_since, (a, b), there),
        call_ensures(Timestamp::nanos_since, (b, a), back),
    ensures
        there == -back,
        b.nanos >= 1_000_000_000 && a.seconds as int % 86_400 > b.seconds as int % 86_400 ==> there == (
        a.seconds - b.seconds) * 1_000_000_000 + a.nanos - (b.nanos - 1_000_000_000),
        a.seconds as int % 86_400 == b.seconds as int % 86_400 ==> there == (a.seconds - b.seconds)
            * 1_000_000_000 + a.nanos - b.nanos,
{
}

// ---- The list ---------------------------------------------------------------------------------------

/// A text with spaces behind it up to a width.
pub open spec fn fills(r: Seq<char>, s: Seq<char>, width: nat) -> bool {
    &&& r.len() == if s.len() < width {
        width
    } else {
        s.len()
    }
    &&& forall|i: int|
        0 <= i < r.len() ==> #[trigger] r[i] == if i < s.len() {
            s[i]
        } else {
            ' '
        }
}

/// The columns of a line have their texts, and a pinned tool has a star behind its tag.
pub open spec fn line_is(
    row: ListRow,
    name: Seq<char>,
    tag: Seq<char>,
    pinned: bool,
    repo: Seq<char>,
) -> bool {
    &&& fills(row.name@, name, 20)
    &&& fills(
        row.version@,
        if pinned {
            tag + seq!['*']
        } else {
            tag
        },
        15,
    )
    &&& fills(row.repo@, repo, 30)
}

proof fn lemma_line(
    row: ListRow,
    name: Seq<char>,
    tag: Seq<char>,
    pinned: bool,
    repo: Seq<char>,
    checked: Seq<char>,
)
    requires
        listing::row_is(row, name, tag, pinned, repo, checked),
    ensures
        line_is(row, name, tag, pinned, repo),
        row.last_checked@ == checked,
{
    assert(tag.push('*') =~= tag + seq!['*']);
    crate::laws::text::law_padding_is_spaces(name, 20);
    crate::laws::text::law_padding_is_spaces(listing::version_text(tag, pinned), 15);
    crate::laws::text::law_padding_is_spaces(repo, 30);
}

/// The line of a tool has its name, its tag, its repository and when it was checked.
pub proof fn law_line_has_its_columns(
    name: &str,
    tag: &str,
    pinned: bool,
    repo: &str,
    checked: &str,
    r: ListRow,
)
    requires
        call_ensures(listing::list_row, (name, tag, pinned, repo, checked), r),
    ensures
        line_is(r, name@, tag@, pinned, repo@),
        r.last_checked@ == checked@,
{
    lemma_line(r, name@, tag@, pinned, repo@, checked@);
}

/// Every tool has one line, in the order of the tools, with a star exactly if the first entry of its
/// repository has a tag. A tool that was not checked is said to be checked never.
pub proof fn law_every_tool_has_its_line(state: &State, m: &Manifest, r: Vec<ListRow>, i: int)
    requires
        call_ensures(listing::cmd_list, (state, m), r),
    ensures
        r@.len() == state.pairs().len(),
        0 <= i < r@.len() ==> ({
            let tool = state.pairs()[i].1;
            &&& line_is(
                r@[i],
                state.pairs()[i].0,
                tool.installed_tag@,
                !updating::not_pinned(*m, tool.repo@),
                tool.repo@,
            )
            &&& match tool.last_checked {
                None => r@[i].last_checked@ == "never"@,
                Some(t) => match calendar::chrono_formatted(t.seconds, t.nanos, "%Y-%m-%d %H:%M"@) {
                    Some(minute) => r@[i].last_checked@ == minute,
                    None => r@[i].last_checked@ == "never"@,
                },
            }
        }),
{
    if 0 <= i < r@.len() {
        let pair = state.pairs()[i];
        let pin = crate::manifest::pin_of(m.tools@, pair.1.repo@);
        updating::lemma_pin(*m, pair.1.repo@);
        assert(listing::row_is(
            r@[i],
            pair.0,
            pair.1.installed_tag@,
            pin is Some,
            pair.1.repo@,
            listing::checked_text(pair.1),
        ));
        lemma_line(
            r@[i],
            pair.0,
            pair.1.installed_tag@,
            pin is Some,
            pair.1.repo@,
            listing::checked_text(pair.1),
        );
    }
}

/// The day and the minute of a moment are those of the calendar.
pub proof fn law_moments_are_written_by_the_calendar(
    t: Timestamp,
    day: Option<String>,
    minute: Option<String>,
)
    requires
        call_ensures(calendar::day_text, (t,), day),
        call_ensures(calendar::minute_text, (t,), minute),
    ensures
        text::opt_string(day) == calendar::chrono_formatted(t.seconds, t.nanos, "%Y-%m-%d"@),
        text::opt_string(minute) == calendar::chrono_formatted(
            t.seconds,
            t.nanos,
            "%Y-%m-%d %H:%M"@,
        ),
        0 <= t.seconds <= 253_402_300_799 && t.nanos < 1_000_000_000 ==> day is Some && minute is Some,
{
}

/// A download is drawn as a bar exactly if its size is known, behind its name, which has spaces up to
/// the width if one is given.
pub proof fn law_bar_needs_a_size(
    total: u64,
    prefix: &str,
    width: Option<usize>,
    r: download::ProgressStyle,
)
    requires
        call_ensures(download::make_progress_bar, (total, prefix, width), r),
    ensures
        r.bar <==> total != 0,
        r.bar ==> r.template@
            == "{prefix:.bold}  {bar:45.green/black.dim}  {bytes:>10} / {total_bytes:<10}  {bytes_per_sec:>12}  eta {eta}"@,
        !r.bar ==> r.template@ == "{prefix:.bold}  {spinner:.green}  {bytes}  {bytes_per_sec}"@,
        width matches Some(w) ==> fills(r.prefix@, prefix@, w as nat),
        width is None ==> r.prefix@ == prefix@,
{
    if let Some(w) = width {
        crate::laws::text::law_padding_is_spaces(prefix@, w as nat);
    }
}

// ---- Errors -----------------------------------------------------------------------------------------

/// Every error says what went wrong, with all that is known of it.
pub proof fn law_errors_say_what_went_wrong(e: &GhrError, r: String)
    requires
        call_ensures(GhrError::message, (e,), r),
    ensures
        match *e {
            GhrError::ApiError { status, message } => r@ == "GitHub API error "@ + decimal::decimal(
                status as nat,
            ) + ": "@ + message@,
            GhrError::RateLimitExceeded { reset_time } => r@ == "Rate limit exceeded; resets at "@
                + reset_time@,
            GhrError::NoCompatibleAssets { repo, tag } => r@
                == "No Linux-compatible assets found for "@ + repo@ + " "@ + tag@,
            GhrError::ChecksumMismatch { filename, expected, got } => r@ == "Checksum mismatch for "@
                + filename@ + ": expected "@ + expected@ + ", got "@ + got@,
            GhrError::StateCorrupted(detail) => r@ == "State file corrupted: "@ + detail@,
            GhrError::BinaryNotFoundInArchive => r@
                == "Binary not found in archive after extraction"@,
            GhrError::UnknownTool { name } => r@ == "Tool '"@ + name@ + "' is not managed by ghr"@,
            GhrError::InstallDirMissing { path } => r@ == "Install directory "@ + path@
                + " does not exist and could not be created"@,
        },
{
}

/// An error is shown with its message; a limit, a release without an asset that fits and a checksum that
/// does not hold come with a hint, and no other error does.
pub proof fn law_three_errors_have_hints(e: &GhrError, message: String, r: ErrorReport)
    requires
        call_ensures(output::print_error, (e,), r),
        call_ensures(GhrError::message, (e,), message),
    ensures
        r.message@ == message@,
        match *e {
            GhrError::RateLimitExceeded { .. } => r.hint is Some && r.hint->0@
                == "Set GITHUB_TOKEN or add github_token to ~/.config/ghr/config.toml to increase the rate limit."@,
            GhrError::NoCompatibleAssets { .. } => r.hint is Some && r.hint->0@
                == "Try `ghr install` with `--prerelease` or check the release page manually."@,
            GhrError::ChecksumMismatch { .. } => r.hint is Some && r.hint->0@
                == "Downloaded file has been removed. The release asset may be corrupted."@,
            _ => r.hint is None,
        },
{
}

/// A checksum that cannot be used says so with the asset and the file; one that does not hold is the
/// error of that.
pub proof fn law_checksum_errors_say_the_asset(e: &ChecksumError, r: String)
    requires
        call_ensures(ChecksumError::message, (e,), r),
    ensures
        match *e {
            ChecksumError::NotListed { asset, file } => r@ == "could not find a checksum for '"@ + asset@
                + "' in "@ + file@,
            ChecksumError::UnknownLength { asset, length, file } => r@
                == "unrecognized checksum for '"@ + asset@ + "': "@ + decimal::decimal(length as nat)
                + "-char digest in "@ + file@ + " is not a known SHA-2 length"@,
            ChecksumError::Mismatch(inner) => r@ == inner.text(),
        },
{
}

/// What names no repository is said back to the user, and a token that cannot be used is not.
pub proof fn law_refused_inputs_are_said(
    e: &RepoError,
    t: &InvalidToken,
    r: String,
    token: String,
)
    requires
        call_ensures(RepoError::message, (e,), r),
        call_ensures(InvalidToken::message, (t,), token),
    ensures
        match *e {
            RepoError::NotARepo { input } => r@ == "'"@ + input@
                + "' is not a valid owner/repo or GitHub URL"@,
            RepoError::NotAUrl { input } => r@ == "'"@ + input@ + "' is not a valid GitHub URL"@,
        },
        token@ == "invalid token value"@,
{
}

// ---- Notes ------------------------------------------------------------------------------------------

/// Notes on installing say the name, the tag and the place.
pub proof fn law_installing_is_said(
    name: &str,
    tag: &str,
    path: &str,
    repo: &str,
    installed: String,
    found: String,
    adopted: String,
)
    requires
        call_ensures(install::installed_note, (name, tag, path), installed),
        call_ensures(install::found_on_path_note, (name, path), found),
        call_ensures(adopt::adopted_note, (name, repo), adopted),
    ensures
        installed@ == "Installed "@ + name@ + " "@ + tag@ + " → "@ + path@,
        found@ == "'"@ + name@ + "' is already installed at "@ + path@,
        adopted@ == "Adopted "@ + name@ + " ("@ + repo@ + "). Run `ghr update "@ + name@
            + "` to detect the current version."@,
{
}

/// Notes on updating say the name and what happened.
pub proof fn law_updating_is_said(
    name: &str,
    from: &str,
    to: &str,
    reason: &str,
    skipped: String,
    failed: String,
    updated: String,
    not_installed: String,
)
    requires
        call_ensures(update::skipped_note, (name, from), skipped),
        call_ensures(update::failed_check_note, (name, reason), failed),
        call_ensures(update::updated_note, (name, from, to), updated),
        call_ensures(update::not_installed_note, (name, reason), not_installed),
    ensures
        skipped@ == name@ + " is pinned to "@ + from@ + ". Skipping update check."@,
        failed@ == "Failed to check "@ + name@ + ": "@ + reason@,
        updated@ == name@ + ": "@ + from@ + " → "@ + to@,
        not_installed@ == "Failed to install "@ + name@ + ": "@ + reason@,
{
}

/// A run says its three counts at its end, and an empty manifest where it is.
pub proof fn law_sync_says_its_counts(
    run: &SyncRun,
    path: &str,
    what: &str,
    name: &str,
    reason: &str,
    summary: String,
    empty: String,
    failure: String,
)
    requires
        call_ensures(SyncRun::summary, (run,), summary),
        call_ensures(sync::empty_note, (path,), empty),
        call_ensures(sync::failure_note, (what, name, reason), failure),
    ensures
        summary@ == "Sync complete: "@ + decimal::decimal(run.installed as nat) + " installed, "@
            + decimal::decimal(run.skipped as nat) + " already present, "@ + decimal::decimal(
            run.failed as nat,
        ) + " failed."@,
        empty@ == "Manifest is empty ("@ + path@
            + "). Install a tool or add entries to it first."@,
        failure@ == what@ + name@ + ": "@ + reason@,
{
}

/// Pruning asks with the count, counts each tool that it removes, and says the count at its end.
pub proof fn law_pruning_counts(
    at_first: PruneRun,
    run: &mut PruneRun,
    after: &PruneRun,
    count: usize,
    name: &str,
    reason: &str,
    prompt: String,
    removed: String,
    not_removed: String,
    summary: String,
)
    requires
        call_ensures(PruneRun::new, (), at_first),
        call_ensures(PruneRun::removed, (run, name), removed),
        call_ensures(PruneRun::not_removed, (after, name, reason), not_removed),
        call_ensures(PruneRun::summary, (after,), summary),
        call_ensures(sync::prune_prompt, (count,), prompt),
        old(run).pruned < usize::MAX,
    ensures
        at_first.pruned == 0,
        final(run).pruned == old(run).pruned + 1,
        prompt@ == "Remove "@ + decimal::decimal(count as nat) + " tool(s)?"@,
        removed@ == "Removed "@ + name@ + "."@,
        not_removed@ == "Failed to remove "@ + name@ + ": "@ + reason@,
        summary@ == "Pruned "@ + decimal::decimal(after.pruned as nat) + " tool(s)."@,
{
}

/// What is asked before a tool is removed says its name, its tag and its place.
pub proof fn law_removal_is_asked_for(
    state: &State,
    name: &str,
    r: Result<uninstall::Removal, GhrError>,
)
    requires
        call_ensures(uninstall::cmd_remove, (state, name), r),
    ensures
        r matches Ok(q) ==> q.prompt@ == "Remove "@ + name@ + " ("@ + q.entry.installed_tag@
            + ") from "@ + q.entry.install_path@ + " ?"@,
{
}

} // verus!
