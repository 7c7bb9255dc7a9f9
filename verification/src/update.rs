//! Looking for updates, and updating.

use vstd::prelude::*;

use crate::error::GhrError;
use crate::github::api::{ApiResponse, ConditionalResult};
use crate::github::types::{Asset, Release, Timestamp};
use crate::installer::InstallResult;
use crate::manifest;
use crate::manifest::Manifest;
use crate::pending::PendingMap;
use crate::sorting;
use crate::sorting::{sort_by_key, Keyed};
use crate::state;
use crate::state::{State, ToolEntry};
use crate::sync::{failure_note, failure_text};
use crate::text;

verus! {

// ---- What to ask for ----------------------------------------------------------------------------

/// What to do about a tool.
#[derive(Debug)]
pub enum Planned {
    /// It is pinned to this tag, and left alone.
    Pinned { name: String, entry: ToolEntry, tag: String },
    /// Its latest release is to be asked for.
    Ask { name: String, entry: ToolEntry },
}

/// What to do about a tool: nothing if its repository is pinned.
pub open spec fn planned_is(
    planned: Planned,
    pair: (Seq<char>, ToolEntry),
    pin: Option<Seq<char>>,
) -> bool {
    match pin {
        Some(t) => planned matches Planned::Pinned { name, entry, tag } && name@ == pair.0 && entry
            == pair.1 && tag@ == t,
        None => planned matches Planned::Ask { name, entry } && name@ == pair.0 && entry == pair.1,
    }
}

/// What to do about every tool, in their order. No request is made for a pinned one: a pin is a
/// lock.
pub fn check_plan(state: &State, manifest: &Manifest) -> (r: Vec<Planned>)
    ensures
        r@.len() == state.pairs().len(),
        forall|i: int|
            0 <= i < r@.len() ==> planned_is(
                #[trigger] r@[i],
                state.pairs()[i],
                manifest::pin_of(manifest.tools@, state.pairs()[i].1.repo@),
            ),
{
    let all = state.iter();
    let ghost pairs = state.pairs();
    let mut out: Vec<Planned> = Vec::new();
    for i in 0..all.len()
        invariant
            pairs == state.pairs(),
            all@.len() == pairs.len(),
            forall|j: int| 0 <= j < all@.len() ==> ((#[trigger] all@[j]).0@, *all@[j].1) == pairs[j],
            out@.len() == i,
            forall|j: int|
                0 <= j < i ==> planned_is(
                    #[trigger] out@[j],
                    pairs[j],
                    manifest::pin_of(manifest.tools@, pairs[j].1.repo@),
                ),
    {
        let (name, entry) = all[i];
        assert((all@[i as int].0@, *all@[i as int].1) == pairs[i as int]);
        match manifest.is_pinned(entry.repo.as_str()) {
            Some(tag) => out.push(
                Planned::Pinned { name: name.clone(), entry: entry.clone(), tag: tag.to_owned() },
            ),
            None => out.push(Planned::Ask { name: name.clone(), entry: entry.clone() }),
        }
    }
    out
}

/// The warning of the check that a tool is left alone.
pub fn skipped_note(repo: &str, installed_tag: &str) -> (r: String)
    ensures
        r@ == repo@ + " is pinned to "@ + installed_tag@ + ". Skipping update check."@,
{
    let mut s = repo.to_owned();
    s.append(" is pinned to ");
    s.append(installed_tag);
    s.append(". Skipping update check.");
    s
}

// ---- What the replies mean ------------------------------------------------------------------------

/// A tool and what came of the request for it.
pub struct Answer {
    pub entry: ToolEntry,
    /// The latest release, or that it is still the one of the ETag; or why the request failed.
    pub reply: Result<ConditionalResult<Release>, String>,
}

/// The latest release, if it is newer than what is installed.
pub open spec fn newer_release(entry: ToolEntry, reply: Result<ConditionalResult<Release>, String>) -> Option<ApiResponse<Release>> {
    match reply {
        Ok(ConditionalResult::Changed(resp)) => if state::behind(entry, resp.data.published_at) {
            Some(resp)
        } else {
            None
        },
        _ => None,
    }
}

/// The warning that a tool could not be checked.
pub open spec fn failed_check_text(name: Seq<char>, reason: Seq<char>) -> Seq<char> {
    "Failed to check "@ + name + ": "@ + reason
}

/// The warning that a tool could not be checked.
pub fn failed_check_note(name: &str, reason: &str) -> (r: String)
    ensures
        r@ == failed_check_text(name@, reason@),
{
    let mut s = "Failed to check ".to_owned();
    s.append(name);
    s.append(": ");
    s.append(reason);
    s
}

/// The tools after answers came in: those that count were checked now.
pub open spec fn touched_all(
    pairs: Seq<(Seq<char>, ToolEntry)>,
    answers: Seq<Keyed<Answer>>,
    now: Timestamp,
    failed_too: bool,
) -> Seq<(Seq<char>, ToolEntry)>
    decreases answers.len(),
{
    if answers.len() == 0 {
        pairs
    } else {
        let before = touched_all(pairs, answers.drop_last(), now, failed_too);
        let last = answers.last();
        if failed_too || !(last.item.reply is Err) {
            state::touched(before, last.key@, now)
        } else {
            before
        }
    }
}

// ---- Updating all ---------------------------------------------------------------------------------

/// What there is to do about a tool once its latest release is known.
pub enum Verdict {
    UpToDate,
    /// This release is newer. The ETag is recorded once it is installed.
    Outdated { release: Release, new_etag: Option<String> },
    Failed { warning: String },
}

/// A tool and what there is to do about it.
pub struct Judged {
    pub name: String,
    pub entry: ToolEntry,
    pub verdict: Verdict,
}

/// What there is to do about a tool by the reply.
pub open spec fn verdict_is(
    verdict: Verdict,
    name: Seq<char>,
    entry: ToolEntry,
    reply: Result<ConditionalResult<Release>, String>,
) -> bool {
    match reply {
        Err(reason) => verdict matches Verdict::Failed { warning } && warning@
            == failed_check_text(name, reason@),
        _ => match newer_release(entry, reply) {
            Some(resp) => verdict matches Verdict::Outdated { release, new_etag } && release
                == resp.data && new_etag == resp.etag,
            None => verdict is UpToDate,
        },
    }
}

/// What there is to do about one tool, by the reply.
pub fn judge(name: &str, entry: &ToolEntry, reply: Result<ConditionalResult<Release>, String>) -> (r: Verdict)
    ensures
        verdict_is(r, name@, *entry, reply),
{
    match reply {
        Ok(ConditionalResult::NotModified) => Verdict::UpToDate,
        Ok(ConditionalResult::Changed(resp)) => if entry.is_behind(resp.data.published_at) {
            Verdict::Outdated { release: resp.data, new_etag: resp.etag }
        } else {
            Verdict::UpToDate
        },
        Err(reason) => Verdict::Failed {
            warning: failed_check_note(name, reason.as_str()),
        },
    }
}

/// What there is to do about every tool, by the replies, in the order of the names. Every tool that
/// was answered for is checked now; one whose request failed is not.
pub fn cmd_update_concurrent(state: &mut State, answers: Vec<Keyed<Answer>>, now: Timestamp) -> (r:
    Vec<Judged>)
    ensures
        final(state).pairs() == touched_all(
            old(state).pairs(),
            sorting::in_order(answers@),
            now,
            false,
        ),
        r@.len() == answers@.len(),
        forall|i: int|
            0 <= i < r@.len() ==> (#[trigger] r@[i]).name@ == sorting::in_order(answers@)[i].key@
                && r@[i].entry == sorting::in_order(answers@)[i].item.entry && verdict_is(
                r@[i].verdict,
                r@[i].name@,
                r@[i].entry,
                sorting::in_order(answers@)[i].item.reply,
            ),
{
    proof {
        sorting::law_order_ascends(answers@);
    }
    let ghost before = state.pairs();
    let sorted = sort_by_key(answers);
    let ghost all = sorted@;
    let mut out: Vec<Judged> = Vec::new();
    for answer in it: sorted.into_iter()
        invariant
            it.seq() == all,
            state.pairs() == touched_all(before, all.take(it.index() as int), now, false),
            out@.len() == it.index(),
            forall|i: int|
                0 <= i < out@.len() ==> (#[trigger] out@[i]).name@ == all[i].key@ && out@[i].entry
                    == all[i].item.entry && verdict_is(
                    out@[i].verdict,
                    out@[i].name@,
                    out@[i].entry,
                    all[i].item.reply,
                ),
    {
        let ghost k = it.index() as int;
        proof {
            assert(all.take(k + 1).drop_last() =~= all.take(k));
            assert(all.take(k + 1).last() == all[k]);
        }
        match &answer.item.reply {
            Err(_) => {},
            _ => {
                state.touch_checked(answer.key.as_str(), now);
            },
        }
        let verdict = judge(answer.key.as_str(), &answer.item.entry, answer.item.reply);
        out.push(Judged { name: answer.key, entry: answer.item.entry, verdict });
    }
    proof {
        assert(all.take(all.len() as int) =~= all);
    }
    out
}

/// A tool that waits for its download.
pub struct PendingUpdate {
    pub name: String,
    pub entry: ToolEntry,
    pub release: Release,
    pub asset: Asset,
    pub install_dir: String,
    pub new_etag: Option<String>,
}

impl PendingUpdate {
    /// A tool that is to be updated to this asset of this release. It stays in the directory that it
    /// is in.
    pub fn new(
        name: String,
        entry: ToolEntry,
        release: Release,
        asset: Asset,
        configured_dir: &str,
        new_etag: Option<String>,
    ) -> (r: Self)
        ensures
            r.name == name,
            r.entry == entry,
            r.release == release,
            r.asset == asset,
            r.install_dir@ == state::dir_of(entry, configured_dir@),
            r.new_etag == new_etag,
    {
        let install_dir = entry.install_dir(configured_dir).to_owned();
        PendingUpdate { name, entry, release, asset, install_dir, new_etag }
    }
}

/// Record a tool that was updated, with the ETag of its release, so that the next request can find
/// that nothing changed.
pub fn record_update(state: &mut State, result: InstallResult, new_etag: Option<String>)
    ensures
        final(state).pairs() == state::inserted(
            old(state).pairs(),
            result.tool_entry.binary_name@,
            (ToolEntry { etag: new_etag, ..result.tool_entry }),
        ),
{
    state.upsert(result.tool_entry.with_etag(new_etag));
}

/// What is said when a tool was updated along with the others.
pub open spec fn updated_text(name: Seq<char>, old_tag: Seq<char>, new_tag: Seq<char>) -> Seq<
    char,
> {
    name + ": "@ + old_tag + " → "@ + new_tag
}

/// What to say when a tool was updated along with the others.
pub fn updated_note(name: &str, old_tag: &str, new_tag: &str) -> (r: String)
    ensures
        r@ == updated_text(name@, old_tag@, new_tag@),
{
    let mut s = name.to_owned();
    s.append(": ");
    s.append(old_tag);
    s.append(" → ");
    s.append(new_tag);
    s
}

/// A run that updates the tools whose releases are out of date.
pub struct UpdateRun {
    /// What is to be updated, by the names of the tools.
    pub pending: PendingMap<PendingUpdate>,
}

impl UpdateRun {
    /// Nothing is to be updated yet.
    pub fn new() -> (r: Self)
        ensures
            forall|k: Seq<char>| #[trigger] r.pending.waiting(k) is None,
    {
        UpdateRun { pending: PendingMap::new() }
    }

    /// The download for a tool begins. It waits under its name.
    pub fn chosen(&mut self, update: PendingUpdate)
        ensures
            forall|k: Seq<char>| #[trigger]
                final(self).pending.waiting(k) == if k == update.name@ {
                    Some(update)
                } else {
                    old(self).pending.waiting(k)
                },
            final(self).pending.waiting(update.name@) == Some(update),
            forall|k: Seq<char>|
                k != update.name@ ==> #[trigger] final(self).pending.waiting(k) == old(
                    self,
                ).pending.waiting(k),
    {
        self.pending.insert(update.name.clone(), update);
    }

    /// A download failed. What waits under its name is given up. Returns the warning.
    pub fn lost(&mut self, name: &str, reason: &str) -> (r: String)
        ensures
            forall|k: Seq<char>| #[trigger]
                final(self).pending.waiting(k) == if k == name@ {
                    None
                } else {
                    old(self).pending.waiting(k)
                },
            final(self).pending.waiting(name@) is None,
            forall|k: Seq<char>|
                k != name@ ==> #[trigger] final(self).pending.waiting(k) == old(
                    self,
                ).pending.waiting(k),
            r@ == failure_text("Failed to download "@, name@, reason@),
    {
        let _ = self.pending.remove(name);
        failure_note("Failed to download ", name, reason)
    }

    /// What a download that came is for, if anything still waits under its name.
    pub fn take(&mut self, name: &str) -> (r: Option<PendingUpdate>)
        ensures
            r == old(self).pending.waiting(name@),
            forall|k: Seq<char>| #[trigger]
                final(self).pending.waiting(k) == if k == name@ {
                    None
                } else {
                    old(self).pending.waiting(k)
                },
    {
        self.pending.remove(name)
    }
}

/// A tool was updated along with the others: it is recorded, with the ETag of its release. Returns
/// what to say.
pub fn installed_update(state: &mut State, update: PendingUpdate, result: InstallResult) -> (r:
    String)
    ensures
        final(state).pairs() == state::inserted(
            old(state).pairs(),
            result.tool_entry.binary_name@,
            (ToolEntry { etag: update.new_etag, ..result.tool_entry }),
        ),
        r@ == updated_text(
            update.name@,
            update.entry.installed_tag@,
            update.release.tag_name@,
        ),
{
    let note = updated_note(
        update.name.as_str(),
        update.entry.installed_tag.as_str(),
        update.release.tag_name.as_str(),
    );
    record_update(state, result, update.new_etag);
    note
}

/// The warning that a tool could not be installed.
pub fn not_installed_note(name: &str, reason: &str) -> (r: String)
    ensures
        r@ == failure_text("Failed to install "@, name@, reason@),
{
    failure_note("Failed to install ", name, reason)
}

// ---- Updating one ---------------------------------------------------------------------------------

/// How an update starts.
#[derive(Debug)]
pub enum UpdateStart {
    /// All tools are updated; if they were to be forced, it has no effect.
    All { force_ignored: bool },
    /// There are no tools.
    NoTools,
    /// No tool was named.
    NoName,
    /// The tool is not managed.
    Unknown(GhrError),
    /// The tool is pinned, and not forced.
    Locked { note: String },
    /// The tool is updated. Its pin, if it has one, is cleared first.
    Go { name: String, entry: ToolEntry, cleared: Option<String> },
}

/// What is said of a tool that is pinned.
pub open spec fn locked_text(name: Seq<char>, tag: Seq<char>) -> Seq<char> {
    name + " is pinned to "@ + tag + ". Re-run `ghr update "@ + name
        + " --force` to update it to the latest release (this clears the pin)."@
}

/// How an update of one tool starts.
pub open spec fn start_one_is(
    r: UpdateStart,
    pairs: Seq<(Seq<char>, ToolEntry)>,
    tools: Seq<manifest::ManifestEntry>,
    name: Option<Seq<char>>,
    force: bool,
) -> bool {
    match name {
        None => r is NoName,
        Some(n) => match state::looked_up(pairs, n) {
            None => r matches UpdateStart::Unknown(GhrError::UnknownTool { name: u }) && u@ == n,
            Some(e) => match manifest::pin_of(tools, e.repo@) {
                Some(tag) => if force {
                    r matches UpdateStart::Go { name: m, entry, cleared } && m@ == n && entry == e
                        && text::opt_string(cleared) == Some(tag)
                } else {
                    r matches UpdateStart::Locked { note } && note@ == locked_text(n, tag)
                },
                None => r matches UpdateStart::Go { name: m, entry, cleared } && m@ == n && entry
                    == e && cleared is None,
            },
        },
    }
}

/// How an update starts. A pinned tool is only updated if it is named and forced, which clears its
/// pin; forcing has no effect on all tools.
pub fn cmd_update(
    state: &State,
    manifest: &Manifest,
    name: Option<&str>,
    all: bool,
    force: bool,
) -> (r: UpdateStart)
    ensures
        if all {
            r == (UpdateStart::All { force_ignored: force })
        } else if state.pairs().len() == 0 {
            r is NoTools
        } else {
            start_one_is(r, state.pairs(), manifest.tools@, text::opt_str(name), force)
        },
{
    if all {
        return UpdateStart::All { force_ignored: force };
    }
    if state.is_empty() {
        return UpdateStart::NoTools;
    }
    let n = match name {
        Some(n) => n,
        None => {
            return UpdateStart::NoName;
        },
    };
    let entry = match state.require(n) {
        Ok(e) => e,
        Err(e) => {
            return UpdateStart::Unknown(e);
        },
    };
    match manifest.is_pinned(entry.repo.as_str()) {
        Some(tag) => if force {
            UpdateStart::Go {
                name: n.to_owned(),
                entry: entry.clone(),
                cleared: Some(tag.to_owned()),
            }
        } else {
            let mut note = n.to_owned();
            note.append(" is pinned to ");
            note.append(tag);
            note.append(". Re-run `ghr update ");
            note.append(n);
            note.append(" --force` to update it to the latest release (this clears the pin).");
            UpdateStart::Locked { note }
        },
        None => UpdateStart::Go { name: n.to_owned(), entry: entry.clone(), cleared: None },
    }
}

/// What there is to do about one tool, by the reply. It is checked now unless the request failed.
pub fn update_one(
    state: &mut State,
    name: &str,
    entry: &ToolEntry,
    reply: Result<ConditionalResult<Release>, String>,
    now: Timestamp,
) -> (r: Verdict)
    ensures
        verdict_is(r, name@, *entry, reply),
        final(state).pairs() == if reply is Err {
            old(state).pairs()
        } else {
            state::touched(old(state).pairs(), name@, now)
        },
{
    match &reply {
        Err(_) => {},
        _ => {
            state.touch_checked(name, now);
        },
    }
    judge(name, entry, reply)
}

// ---- Checking -------------------------------------------------------------------------------------

/// What the check found of a tool.
#[derive(Debug)]
pub struct CheckResult {
    pub name: String,
    pub installed_tag: String,
    pub latest_tag: Option<String>,
    pub update_available: bool,
}

/// What the check found.
#[derive(Debug)]
pub struct CheckReport {
    pub results: Vec<CheckResult>,
    pub warnings: Vec<String>,
    pub any_updates: bool,
}

/// The tag of the latest release, if the reply tells it.
pub open spec fn latest_tag_of(reply: Result<ConditionalResult<Release>, String>) -> Option<Seq<char>> {
    match reply {
        Ok(ConditionalResult::Changed(resp)) => Some(resp.data.tag_name@),
        _ => None,
    }
}

/// What the check says of a tool by the answer.
pub open spec fn result_is(result: CheckResult, answer: Keyed<Answer>) -> bool {
    &&& result.name@ == answer.key@
    &&& result.installed_tag@ == answer.item.entry.installed_tag@
    &&& text::opt_string(result.latest_tag) == latest_tag_of(answer.item.reply)
    &&& result.update_available == (newer_release(answer.item.entry, answer.item.reply) is Some)
}

/// The answers to requests that did not fail.
pub open spec fn answered(answers: Seq<Keyed<Answer>>) -> Seq<Keyed<Answer>> {
    answers.filter(|a: Keyed<Answer>| !(a.item.reply is Err))
}

/// The warnings for the requests that failed.
pub open spec fn warnings_for(answers: Seq<Keyed<Answer>>) -> Seq<Seq<char>> {
    answers.filter(|a: Keyed<Answer>| a.item.reply is Err).map_values(
        |a: Keyed<Answer>| failed_check_text(a.key@, a.item.reply->Err_0@),
    )
}

/// What the check says of all tools.
pub open spec fn report_is(report: CheckReport, answers: Seq<Keyed<Answer>>) -> bool {
    let good = answered(answers);
    &&& report.results@.len() == good.len()
    &&& forall|i: int| 0 <= i < good.len() ==> result_is(#[trigger] report.results@[i], good[i])
    &&& report.warnings@.map_values(|w: String| w@) == warnings_for(answers)
    &&& report.any_updates == (exists|i: int|
        0 <= i < report.results@.len() && (#[trigger] report.results@[i]).update_available)
}

/// What the check finds by the replies, in the order of the names. Every tool that was asked for is
/// checked now, and nothing else is recorded: with the ETag of a release that is not installed, the
/// next check would find nothing new.
pub fn cmd_check(state: &mut State, answers: Vec<Keyed<Answer>>, now: Timestamp) -> (r: CheckReport)
    ensures
        final(state).pairs() == touched_all(
            old(state).pairs(),
            sorting::in_order(answers@),
            now,
            true,
        ),
        report_is(r, sorting::in_order(answers@)),
{
    let ghost before = state.pairs();
    let sorted = sort_by_key(answers);
    let ghost all = sorted@;
    let ghost ok = |a: Keyed<Answer>| !(a.item.reply is Err);
    let ghost bad = |a: Keyed<Answer>| a.item.reply is Err;
    let ghost text = |a: Keyed<Answer>| failed_check_text(a.key@, a.item.reply->Err_0@);
    let ghost view = |w: String| w@;
    let mut report = CheckReport { results: Vec::new(), warnings: Vec::new(), any_updates: false };
    proof {
        reveal(Seq::filter);
        assert(all.take(0) =~= Seq::<Keyed<Answer>>::empty());
        assert(report.warnings@.map_values(view) =~= warnings_for(all.take(0)));
    }
    for answer in it: sorted.into_iter()
        invariant
            it.seq() == all,
            ok == (|a: Keyed<Answer>| !(a.item.reply is Err)),
            bad == (|a: Keyed<Answer>| a.item.reply is Err),
            text == (|a: Keyed<Answer>| failed_check_text(a.key@, a.item.reply->Err_0@)),
            view == (|w: String| w@),
            state.pairs() == touched_all(before, all.take(it.index() as int), now, true),
            report_is(report, all.take(it.index() as int)),
    {
        let ghost k = it.index() as int;
        let ghost done = all.take(k);
        let ghost more = all.take(k + 1);
        let ghost old_results = report.results@;
        let ghost old_warnings = report.warnings@;
        proof {
            reveal(Seq::filter);
            assert(more.drop_last() =~= done);
            assert(more.last() == answer);
            assert(done.filter(bad).push(answer).map_values(text) =~= done.filter(bad).map_values(
                text,
            ).push(text(answer)));
        }
        state.touch_checked(answer.key.as_str(), now);
        match answer.item.reply {
            Ok(ConditionalResult::NotModified) => {
                report.results.push(
                    CheckResult {
                        name: answer.key,
                        installed_tag: answer.item.entry.installed_tag,
                        latest_tag: None,
                        update_available: false,
                    },
                );
                proof {
                    assert(report.results@.drop_last() =~= old_results);
                    lemma_any_after(old_results, report.results@);
                }
            },
            Ok(ConditionalResult::Changed(resp)) => {
                let update_available = answer.item.entry.is_behind(resp.data.published_at);
                report.any_updates = report.any_updates || update_available;
                report.results.push(
                    CheckResult {
                        name: answer.key,
                        installed_tag: answer.item.entry.installed_tag,
                        latest_tag: Some(resp.data.tag_name),
                        update_available,
                    },
                );
                proof {
                    assert(report.results@.drop_last() =~= old_results);
                    lemma_any_after(old_results, report.results@);
                }
            },
            Err(reason) => {
                report.warnings.push(failed_check_note(answer.key.as_str(), reason.as_str()));
                proof {
                    assert(report.warnings@.map_values(view) =~= old_warnings.map_values(
                        view,
                    ).push(failed_check_text(answer.key@, reason@)));
                }
            },
        }
    }
    proof {
        assert(all.take(all.len() as int) =~= all);
    }
    report
}

/// With one result more, an update is available if one was before or the new one is.
proof fn lemma_any_after(before: Seq<CheckResult>, after: Seq<CheckResult>)
    requires
        after.len() > 0,
        after.drop_last() == before,
    ensures
        (exists|i: int| 0 <= i < after.len() && (#[trigger] after[i]).update_available) == ((exists|
            i: int,
        |
            0 <= i < before.len() && (#[trigger] before[i]).update_available)
            || after.last().update_available),
{
    let any = exists|i: int| 0 <= i < before.len() && (#[trigger] before[i]).update_available;
    if any {
        let i = choose|i: int| 0 <= i < before.len() && (#[trigger] before[i]).update_available;
        assert(after[i] == after.drop_last()[i]);
    }
    if exists|i: int| 0 <= i < after.len() && (#[trigger] after[i]).update_available {
        let i = choose|i: int| 0 <= i < after.len() && (#[trigger] after[i]).update_available;
        if i < before.len() {
            assert(after.drop_last()[i] == after[i]);
            assert(before[i].update_available);
        }
    }
    if after.last().update_available {
        assert(after[after.len() - 1].update_available);
    }
}

// ---- Laws -----------------------------------------------------------------------------------------

/// Looking for updates changes nothing of a tool but the moment at which it was checked: in
/// particular, its release and its ETag stay.
pub proof fn law_checking_installs_nothing(
    pairs: Seq<(Seq<char>, ToolEntry)>,
    answers: Seq<Keyed<Answer>>,
    now: Timestamp,
    failed_too: bool,
    i: int,
)
    requires
        0 <= i < pairs.len(),
    ensures
        touched_all(pairs, answers, now, failed_too).len() == pairs.len(),
        ({
            let after = touched_all(pairs, answers, now, failed_too)[i];
            after == pairs[i] || after == (pairs[i].0, state::checked_at(pairs[i].1, now))
        }),
    decreases answers.len(),
{
    if answers.len() > 0 {
        law_checking_installs_nothing(pairs, answers.drop_last(), now, failed_too, i);
        let before = touched_all(pairs, answers.drop_last(), now, failed_too);
        state::law_checking_changes_only_the_moment(before, answers.last().key@, now, i);
    }
}

/// A tool that nobody asked for stays as it is: a pinned tool is untouched when all are updated.
pub proof fn law_unasked_tools_stay(
    pairs: Seq<(Seq<char>, ToolEntry)>,
    answers: Seq<Keyed<Answer>>,
    now: Timestamp,
    failed_too: bool,
    i: int,
)
    requires
        0 <= i < pairs.len(),
        forall|j: int| 0 <= j < answers.len() ==> (#[trigger] answers[j]).key@ != pairs[i].0,
    ensures
        touched_all(pairs, answers, now, failed_too).len() == pairs.len(),
        touched_all(pairs, answers, now, failed_too)[i] == pairs[i],
    decreases answers.len(),
{
    if answers.len() > 0 {
        let front = answers.drop_last();
        assert forall|j: int| 0 <= j < front.len() implies (#[trigger] front[j]).key@
            != pairs[i].0 by {
            assert(answers[j].key@ != pairs[i].0);
        }
        law_unasked_tools_stay(pairs, front, now, failed_too, i);
        let before = touched_all(pairs, front, now, failed_too);
        assert(answers[answers.len() - 1].key@ != pairs[i].0);
        state::law_checking_changes_only_the_moment(before, answers.last().key@, now, i);
    }
}

/// The release that was just installed is not offered as an update.
pub proof fn law_installed_release_is_no_update(entry: ToolEntry, resp: ApiResponse<Release>)
    requires
        entry.published_at == Some(resp.data.published_at),
    ensures
        newer_release(entry, Ok(ConditionalResult::Changed(resp))) is None,
{
}

/// A tool that was updated is found with the ETag of its release, and is not behind that release.
pub proof fn law_updated_tool_is_current(
    pairs: Seq<(Seq<char>, ToolEntry)>,
    entry: ToolEntry,
    new_etag: Option<String>,
    published: Timestamp,
)
    requires
        entry.published_at == Some(published),
    ensures
        ({
            let after = state::inserted(
                pairs,
                entry.binary_name@,
                (ToolEntry { etag: new_etag, ..entry }),
            );
            state::looked_up(after, entry.binary_name@) matches Some(e) && e.etag == new_etag
                && !state::behind(e, published)
        }),
{
    let updated = ToolEntry { etag: new_etag, ..entry };
    state::law_upserted_is_found(pairs, entry.binary_name@, updated, entry.binary_name@);
}

} // verus!
