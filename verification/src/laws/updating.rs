//! Looking for updates, and updating.

use vstd::prelude::*;

use crate::error::GhrError;
use crate::github::api::ConditionalResult;
use crate::github::types::{Asset, Release, Timestamp};
use crate::installer::InstallResult;
use crate::laws::manifests;
use crate::laws::picking;
use crate::laws::tools;
use crate::laws::tools::{first_of_name, moment, nameless};
use crate::manifest::Manifest;
use crate::sorting;
use crate::sorting::Keyed;
use crate::state;
use crate::state::{State, ToolEntry};
use crate::text;
use crate::update;
use crate::update::{
    Answer, CheckReport, Judged, PendingUpdate, Planned, UpdateStart, Verdict,
};

verus! {

/// A release of this moment is news for a tool: nothing is known of the moment of its own release, or
/// that moment is earlier.
pub open spec fn is_news(entry: ToolEntry, published: Timestamp) -> bool {
    entry.published_at is None || moment(published) > moment(entry.published_at->0)
}

/// The verdict on a tool by the reply: the release of the reply and its ETag if it is news, a warning
/// that names the tool and the reason if the request failed, and else that all is well.
pub open spec fn judged_rightly(
    verdict: Verdict,
    name: Seq<char>,
    entry: ToolEntry,
    reply: Result<ConditionalResult<Release>, String>,
) -> bool {
    match reply {
        Err(reason) => match verdict {
            Verdict::Failed { warning } => warning@ == "Failed to check "@ + name + ": "@ + reason@,
            _ => false,
        },
        Ok(ConditionalResult::NotModified) => verdict is UpToDate,
        Ok(ConditionalResult::Changed(resp)) => match verdict {
            Verdict::Outdated { release, new_etag } => is_news(entry, resp.data.published_at)
                && release == resp.data && new_etag == resp.etag,
            Verdict::UpToDate => !is_news(entry, resp.data.published_at),
            Verdict::Failed { .. } => false,
        },
    }
}

proof fn lemma_verdict(
    verdict: Verdict,
    name: Seq<char>,
    entry: ToolEntry,
    reply: Result<ConditionalResult<Release>, String>,
)
    requires
        update::verdict_is(verdict, name, entry, reply),
    ensures
        judged_rightly(verdict, name, entry, reply),
{
    if let Ok(ConditionalResult::Changed(resp)) = reply {
        lemma_behind(entry, resp.data.published_at);
    }
}

proof fn lemma_behind(entry: ToolEntry, published: Timestamp)
    ensures
        state::behind(entry, published) <==> is_news(entry, published),
{
    if let Some(t) = entry.published_at {
        tools::lemma_moments(published, t);
    }
}

/// A tool of whose release no moment is known is out of date whatever release the reply holds; another
/// one exactly if the release of the reply is of a later moment.
pub proof fn law_verdict_is_by_the_moments(
    name: &str,
    entry: &ToolEntry,
    reply: Result<ConditionalResult<Release>, String>,
    r: Verdict,
)
    requires
        call_ensures(update::judge, (name, entry, reply), r),
    ensures
        judged_rightly(r, name@, *entry, reply),
        match reply {
            Ok(ConditionalResult::Changed(resp)) => {
                &&& entry.published_at is None ==> (r matches Verdict::Outdated { release, new_etag }
                    && release == resp.data && new_etag == resp.etag)
                &&& entry.published_at matches Some(t) ==> (r is Outdated <==> moment(
                    resp.data.published_at,
                ) > moment(t))
            },
            _ => !(r is Outdated),
        },
{
    lemma_verdict(r, name@, *entry, reply);
}

/// One tool is judged like each of many, and is checked now unless the request failed; nothing else
/// changes.
pub proof fn law_one_tool_is_judged_and_checked(
    state: &mut State,
    name: &str,
    entry: &ToolEntry,
    reply: Result<ConditionalResult<Release>, String>,
    now: Timestamp,
    r: Verdict,
    i: int,
)
    requires
        call_ensures(update::update_one, (state, name, entry, reply, now), r),
        0 <= i < old(state).pairs().len(),
    ensures
        judged_rightly(r, name@, *entry, reply),
        match reply {
            Ok(ConditionalResult::Changed(resp)) => entry.published_at is None ==> (
            r matches Verdict::Outdated { release, new_etag } && release == resp.data && new_etag
                == resp.etag),
            _ => !(r is Outdated),
        },
        final(state).pairs().len() == old(state).pairs().len(),
        final(state).pairs()[i] == if first_of_name(old(state).pairs(), name@, i) && reply is Ok {
            (
                old(state).pairs()[i].0,
                ToolEntry { last_checked: Some(now), ..old(state).pairs()[i].1 },
            )
        } else {
            old(state).pairs()[i]
        },
{
    lemma_verdict(r, name@, *entry, reply);
    tools::lemma_touched(old(state).pairs(), name@, now, i);
}

// ---- Many tools -----------------------------------------------------------------------------------

/// An answer that counts as a check came for the tool.
pub open spec fn answered_for(
    answers: Seq<Keyed<Answer>>,
    name: Seq<char>,
    failed_too: bool,
) -> bool {
    exists|j: int|
        0 <= j < answers.len() && (#[trigger] answers[j]).key@ == name && (failed_too
            || answers[j].item.reply is Ok)
}

/// The tool at this place is as it was, but for the moment of the check if it was checked.
pub open spec fn checked_rightly(
    a: Seq<(Seq<char>, ToolEntry)>,
    b: Seq<(Seq<char>, ToolEntry)>,
    i: int,
    now: Timestamp,
    checked: bool,
) -> bool {
    if checked && first_of_name(a, a[i].0, i) {
        b[i] == (a[i].0, (ToolEntry { last_checked: Some(now), ..a[i].1 }))
    } else {
        b[i] == a[i]
    }
}

proof fn lemma_touched_all(
    a: Seq<(Seq<char>, ToolEntry)>,
    answers: Seq<Keyed<Answer>>,
    now: Timestamp,
    failed_too: bool,
)
    ensures
        ({
            let b = update::touched_all(a, answers, now, failed_too);
            &&& b.len() == a.len()
            &&& forall|i: int| 0 <= i < a.len() ==> (#[trigger] b[i]).0 == a[i].0
            &&& forall|i: int|
                0 <= i < a.len() ==> #[trigger] checked_rightly(
                    a,
                    b,
                    i,
                    now,
                    answered_for(answers, a[i].0, failed_too),
                )
        }),
    decreases answers.len(),
{
    let b = update::touched_all(a, answers, now, failed_too);
    if answers.len() > 0 {
        let front = answers.drop_last();
        let last = answers.last();
        let c = update::touched_all(a, front, now, failed_too);
        lemma_touched_all(a, front, now, failed_too);
        assert forall|i: int| 0 <= i < a.len() implies (#[trigger] b[i]).0 == a[i].0
            && checked_rightly(a, b, i, now, answered_for(answers, a[i].0, failed_too)) && b.len()
            == a.len() by {
            assert(c[i].0 == a[i].0);
            assert(checked_rightly(a, c, i, now, answered_for(front, a[i].0, failed_too)));
            tools::lemma_touched(c, last.key@, now, i);
            assert(first_of_name(c, last.key@, i) <==> first_of_name(a, last.key@, i)) by {
                if first_of_name(c, last.key@, i) {
                    assert forall|j: int| 0 <= j < i implies (#[trigger] a[j]).0 != last.key@ by {
                        assert(c[j].0 == a[j].0);
                    }
                }
                if first_of_name(a, last.key@, i) {
                    assert forall|j: int| 0 <= j < i implies (#[trigger] c[j]).0 != last.key@ by {
                        assert(c[j].0 == a[j].0);
                    }
                }
            }
            let n = a[i].0;
            if answered_for(front, n, failed_too) {
                let j = choose|j: int|
                    0 <= j < front.len() && (#[trigger] front[j]).key@ == n && (failed_too
                        || front[j].item.reply is Ok);
                assert(answers[j] == front[j]);
                assert(answered_for(answers, n, failed_too));
            }
            let counts = failed_too || last.item.reply is Ok;
            if counts && last.key@ == n {
                assert(answers[answers.len() - 1].key@ == n);
                assert(answered_for(answers, n, failed_too));
            }
            if answered_for(answers, n, failed_too) {
                let j = choose|j: int|
                    0 <= j < answers.len() && (#[trigger] answers[j]).key@ == n && (failed_too
                        || answers[j].item.reply is Ok);
                if j < front.len() {
                    assert(front[j] == answers[j]);
                    assert(answered_for(front, n, failed_too));
                }
            }
            if last.key@ != n {
                assert(!first_of_name(a, last.key@, i));
            }
        }
        if a.len() == 0 {
            state::lemma_key_position(c, last.key@);
        } else {
            assert(b[0].0 == a[0].0);
        }
    }
}

/// When all tools are looked at, each gets the verdict on its own answer, in the order of the names.
/// A tool is checked now if a request for it did not fail; nothing else changes.
pub proof fn law_all_tools_are_judged_and_checked(
    state: &mut State,
    answers: Vec<Keyed<Answer>>,
    now: Timestamp,
    r: Vec<Judged>,
)
    requires
        call_ensures(update::cmd_update_concurrent, (state, answers, now), r),
    ensures
        r@.len() == answers@.len(),
        forall|k: int|
            0 <= k < r@.len() ==> {
                let asked = sorting::in_order(answers@)[k];
                &&& (#[trigger] r@[k]).name@ == asked.key@
                &&& r@[k].entry == asked.item.entry
                &&& judged_rightly(r@[k].verdict, asked.key@, asked.item.entry, asked.item.reply)
            },
        final(state).pairs().len() == old(state).pairs().len(),
        forall|i: int|
            0 <= i < old(state).pairs().len() ==> #[trigger] checked_rightly(
                old(state).pairs(),
                final(state).pairs(),
                i,
                now,
                answered_for(sorting::in_order(answers@), old(state).pairs()[i].0, false),
            ),
{
    let asked = sorting::in_order(answers@);
    lemma_touched_all(old(state).pairs(), asked, now, false);
    assert forall|k: int| 0 <= k < r@.len() implies ({
        &&& (#[trigger] r@[k]).name@ == asked[k].key@
        &&& r@[k].entry == asked[k].item.entry
        &&& judged_rightly(
            r@[k].verdict,
            asked[k].key@,
            asked[k].item.entry,
            asked[k].item.reply,
        )
    }) by {
        lemma_verdict(r@[k].verdict, asked[k].key@, asked[k].item.entry, asked[k].item.reply);
    }
}

/// The reply says that there is an update for the tool.
pub open spec fn has_update(answer: Keyed<Answer>) -> bool {
    match answer.item.reply {
        Ok(ConditionalResult::Changed(resp)) => is_news(answer.item.entry, resp.data.published_at),
        _ => false,
    }
}

/// The check reports on every tool whose request did not fail, and warns of every other, in the order
/// of the names. An update is available for a tool of whose release no moment is known, and for one
/// whose release is of an earlier moment than that of the reply. Whether there is any update at all is
/// said, too. Every tool that was asked for is checked now, and nothing else changes.
pub proof fn law_check_reports_what_is_news(
    state: &mut State,
    answers: Vec<Keyed<Answer>>,
    now: Timestamp,
    r: CheckReport,
) -> (order: (Seq<int>, Seq<int>))
    requires
        call_ensures(update::cmd_check, (state, answers, now), r),
    ensures
        ({
            let asked = sorting::in_order(answers@);
            &&& picking::ascending(order.0, asked.len())
            &&& picking::ascending(order.1, asked.len())
            &&& order.0.len() == r.results@.len()
            &&& order.1.len() == r.warnings@.len()
            &&& forall|i: int|
                0 <= i < asked.len() ==> if asked[i].item.reply is Ok {
                    #[trigger] order.0.contains(i)
                } else {
                    order.1.contains(i)
                }
            &&& forall|k: int|
                0 <= k < r.results@.len() ==> {
                    let a = asked[#[trigger] order.0[k]];
                    &&& a.item.reply is Ok
                    &&& r.results@[k].name@ == a.key@
                    &&& r.results@[k].installed_tag@ == a.item.entry.installed_tag@
                    &&& r.results@[k].update_available <==> has_update(a)
                    &&& match a.item.reply {
                        Ok(ConditionalResult::Changed(resp)) => text::opt_string(
                            r.results@[k].latest_tag,
                        ) == Some(resp.data.tag_name@),
                        _ => r.results@[k].latest_tag is None,
                    }
                }
            &&& forall|k: int|
                0 <= k < r.warnings@.len() ==> {
                    let a = asked[#[trigger] order.1[k]];
                    &&& a.item.reply is Err
                    &&& r.warnings@[k]@ == "Failed to check "@ + a.key@ + ": "@
                        + a.item.reply->Err_0@
                }
            &&& r.any_updates <==> exists|i: int|
                0 <= i < asked.len() && has_update(#[trigger] asked[i])
        }),
        final(state).pairs().len() == old(state).pairs().len(),
        forall|i: int|
            0 <= i < old(state).pairs().len() ==> #[trigger] checked_rightly(
                old(state).pairs(),
                final(state).pairs(),
                i,
                now,
                answered_for(sorting::in_order(answers@), old(state).pairs()[i].0, true),
            ),
{
    let asked = sorting::in_order(answers@);
    lemma_touched_all(old(state).pairs(), asked, now, true);
    let ok = |a: Keyed<Answer>| !(a.item.reply is Err);
    let bad = |a: Keyed<Answer>| a.item.reply is Err;
    let words = |a: Keyed<Answer>| update::failed_check_text(a.key@, a.item.reply->Err_0@);
    let view = |w: String| w@;
    let good = picking::lemma_kept(asked, ok);
    let failed = picking::lemma_kept(asked, bad);
    assert(update::answered(asked) == asked.filter(ok));
    let warned = update::warnings_for(asked);
    assert(warned == asked.filter(bad).map_values(words));
    assert(r.warnings@.map_values(view) == warned);
    assert(r.warnings@.map_values(view).len() == r.warnings@.len());
    assert forall|i: int| 0 <= i < asked.len() implies if asked[i].item.reply is Ok {
        #[trigger] good.contains(i)
    } else {
        failed.contains(i)
    } by {
        if asked[i].item.reply is Ok {
            assert(ok(asked[i]));
        } else {
            assert(bad(asked[i]));
        }
    }
    assert forall|k: int| 0 <= k < r.results@.len() implies ({
        let a = asked[#[trigger] good[k]];
        &&& a.item.reply is Ok
        &&& update::result_is(r.results@[k], a)
        &&& r.results@[k].update_available <==> has_update(a)
    }) by {
        let a = asked[good[k]];
        assert(ok(a));
        assert(update::result_is(r.results@[k], asked.filter(ok)[k]));
        if let Ok(ConditionalResult::Changed(resp)) = a.item.reply {
            lemma_behind(a.item.entry, resp.data.published_at);
        }
    }
    assert forall|k: int| 0 <= k < r.warnings@.len() implies ({
        let a = asked[#[trigger] failed[k]];
        &&& a.item.reply is Err
        &&& r.warnings@[k]@ == "Failed to check "@ + a.key@ + ": "@ + a.item.reply->Err_0@
    }) by {
        let a = asked[failed[k]];
        assert(bad(a));
        assert(r.warnings@.map_values(view)[k] == r.warnings@[k]@);
        assert(asked.filter(bad).map_values(words)[k] == words(asked.filter(bad)[k]));
    }
    if r.any_updates {
        let k = choose|k: int| 0 <= k < r.results@.len() && (#[trigger] r.results@[k]).update_available;
        assert(has_update(asked[good[k]]));
    }
    if exists|i: int| 0 <= i < asked.len() && has_update(#[trigger] asked[i]) {
        let i = choose|i: int| 0 <= i < asked.len() && has_update(#[trigger] asked[i]);
        assert(ok(asked[i]));
        assert(good.contains(i));
        let k = choose|k: int| 0 <= k < good.len() && good[k] == i;
        assert(has_update(asked[good[k]]));
        assert(r.results@[k].update_available);
    }
    (good, failed)
}

// ---- Pins -----------------------------------------------------------------------------------------

/// The first entry of the repository is pinned to this tag.
pub open spec fn pinned_to(m: Manifest, repo: Seq<char>, tag: Seq<char>) -> bool {
    exists|j: int| #[trigger]
        manifests::first_entry(m.tools@, repo, j) && text::opt_string(m.tools@[j].tag) == Some(tag)
}

/// The repository has no entry, or its first entry has no tag.
pub open spec fn not_pinned(m: Manifest, repo: Seq<char>) -> bool {
    forall|j: int| #[trigger] manifests::first_entry(m.tools@, repo, j) ==> m.tools@[j].tag is None
}

pub proof fn lemma_pin(m: Manifest, repo: Seq<char>)
    ensures
        match crate::manifest::pin_of(m.tools@, repo) {
            Some(tag) => pinned_to(m, repo, tag) && !not_pinned(m, repo),
            None => not_pinned(m, repo) && forall|t: Seq<char>| !#[trigger] pinned_to(m, repo, t),
        },
{
    manifests::lemma_entry(m.tools@, repo);
    if let Some(e) = crate::manifest::entry_for(m.tools@, repo) {
        let j = choose|j: int| #[trigger]
            manifests::first_entry(m.tools@, repo, j) && m.tools@[j] == e;
        assert(crate::manifest::pin_of(m.tools@, repo) == text::opt_string(m.tools@[j].tag));
    }
}

/// Every tool is planned for, in the order of the tools: one whose repository is pinned is left alone,
/// with the tag of the pin, and the latest release of any other one is asked for.
pub proof fn law_pins_are_locks(state: &State, m: &Manifest, r: Vec<Planned>, i: int)
    requires
        call_ensures(update::check_plan, (state, m), r),
    ensures
        r@.len() == state.pairs().len(),
        0 <= i < r@.len() ==> match r@[i] {
            Planned::Pinned { name, entry, tag } => name@ == state.pairs()[i].0 && entry
                == state.pairs()[i].1 && pinned_to(*m, entry.repo@, tag@),
            Planned::Ask { name, entry } => name@ == state.pairs()[i].0 && entry
                == state.pairs()[i].1 && not_pinned(*m, entry.repo@),
        },
{
    if 0 <= i < r@.len() {
        lemma_pin(*m, state.pairs()[i].1.repo@);
        assert(update::planned_is(
            r@[i],
            state.pairs()[i],
            crate::manifest::pin_of(m.tools@, state.pairs()[i].1.repo@),
        ));
    }
}

/// An update of one tool goes on if a tool of the name is there and its repository is not pinned, or
/// the update is forced, which clears the pin. A pinned tool is otherwise left alone, and the note says
/// its name and the tag. All tools are updated if all are asked for, whatever is named.
pub proof fn law_update_of_a_pinned_tool_is_forced(
    state: &State,
    m: &Manifest,
    name: Option<&str>,
    all: bool,
    force: bool,
    r: UpdateStart,
)
    requires
        call_ensures(update::cmd_update, (state, m, name, all, force), r),
    ensures
        r is All <==> all,
        r matches UpdateStart::All { force_ignored } ==> force_ignored == force,
        r is NoTools <==> !all && state.pairs().len() == 0,
        r is NoName <==> !all && state.pairs().len() > 0 && name is None,
        r is Unknown <==> !all && state.pairs().len() > 0 && name is Some && nameless(
            state.pairs(),
            name->0@,
        ),
        r matches UpdateStart::Unknown(e) ==> (e matches GhrError::UnknownTool { name: n } && n@
            == name->0@),
        r matches UpdateStart::Locked { note } ==> {
            &&& !force
            &&& exists|i: int, tag: Seq<char>|
                #![trigger first_of_name(state.pairs(), name->0@, i), pinned_to(*m, state.pairs()[i].1.repo@, tag)]
                first_of_name(state.pairs(), name->0@, i) && pinned_to(
                    *m,
                    state.pairs()[i].1.repo@,
                    tag,
                ) && note@ == name->0@ + " is pinned to "@ + tag + ". Re-run `ghr update "@ + name->0@
                    + " --force` to update it to the latest release (this clears the pin)."@
        },
        r matches UpdateStart::Go { name: n, entry, cleared } ==> {
            &&& n@ == name->0@
            &&& exists|i: int| #[trigger]
                first_of_name(state.pairs(), name->0@, i) && state.pairs()[i].1 == entry
            &&& match cleared {
                Some(tag) => force && pinned_to(*m, entry.repo@, tag@),
                None => not_pinned(*m, entry.repo@),
            }
        },
{
    if !all && state.pairs().len() > 0 && name is Some {
        let n = name->0@;
        tools::law_lookup_is_by_name(state.pairs(), n);
        if let Some(e) = state::looked_up(state.pairs(), n) {
            let i = choose|i: int| #[trigger]
                first_of_name(state.pairs(), n, i) && state.pairs()[i].1 == e;
            lemma_pin(*m, e.repo@);
            if let Some(tag) = crate::manifest::pin_of(m.tools@, e.repo@) {
                assert(first_of_name(state.pairs(), n, i) && pinned_to(
                    *m,
                    state.pairs()[i].1.repo@,
                    tag,
                ));
            }
        }
    }
}

// ---- Recording ------------------------------------------------------------------------------------

/// An update that was installed is recorded under the name of its binary with the ETag of its release;
/// the other tools stay.
pub proof fn law_update_is_recorded_with_its_etag(
    state: &mut State,
    result: InstallResult,
    etag: Option<String>,
    r: (),
    i: int,
)
    requires
        call_ensures(update::record_update, (state, result, etag), r),
    ensures
        ({
            let a = old(state).pairs();
            let b = final(state).pairs();
            let name = result.tool_entry.binary_name@;
            let e = ToolEntry { etag, ..result.tool_entry };
            &&& nameless(a, name) ==> b == a + seq![(name, e)]
            &&& !nameless(a, name) ==> b.len() == a.len()
            &&& first_of_name(a, name, i) ==> b[i] == (name, e)
            &&& 0 <= i < a.len() && !first_of_name(a, name, i) ==> b[i] == a[i]
        }),
{
    lemma_inserted(
        old(state).pairs(),
        result.tool_entry.binary_name@,
        (ToolEntry { etag, ..result.tool_entry }),
        i,
    );
}

/// What it means to put a tool in.
pub proof fn lemma_inserted(
    a: Seq<(Seq<char>, ToolEntry)>,
    name: Seq<char>,
    e: ToolEntry,
    i: int,
)
    ensures
        ({
            let b = state::inserted(a, name, e);
            &&& nameless(a, name) ==> b == a + seq![(name, e)]
            &&& !nameless(a, name) ==> b.len() == a.len()
            &&& first_of_name(a, name, i) ==> b[i] == (name, e)
            &&& 0 <= i < a.len() && !first_of_name(a, name, i) ==> b[i] == a[i]
        }),
{
    tools::law_lookup_is_by_name(a, name);
    state::lemma_key_position(a, name);
    let p = state::key_position(a, name);
    if p < a.len() {
        assert(first_of_name(a, name, p));
        if first_of_name(a, name, i) && i != p {
            if i < p {
                assert(a[i].0 != name);
            } else {
                assert(a[p].0 != name);
            }
        }
    } else {
        assert(a.push((name, e)) =~= a + seq![(name, e)]);
    }
}

/// The same holds of an update along with others; what is said names the tool, the tag that it had
/// and the tag that it has.
pub proof fn law_update_along_with_others_is_recorded(
    state: &mut State,
    update: PendingUpdate,
    result: InstallResult,
    r: String,
    i: int,
)
    requires
        call_ensures(crate::update::installed_update, (state, update, result), r),
    ensures
        ({
            let a = old(state).pairs();
            let b = final(state).pairs();
            let name = result.tool_entry.binary_name@;
            let e = ToolEntry { etag: update.new_etag, ..result.tool_entry };
            &&& nameless(a, name) ==> b == a + seq![(name, e)]
            &&& !nameless(a, name) ==> b.len() == a.len()
            &&& first_of_name(a, name, i) ==> b[i] == (name, e)
            &&& 0 <= i < a.len() && !first_of_name(a, name, i) ==> b[i] == a[i]
        }),
        r@ == update.name@ + ": "@ + update.entry.installed_tag@ + " → "@ + update.release.tag_name@,
{
    lemma_inserted(
        old(state).pairs(),
        result.tool_entry.binary_name@,
        (ToolEntry { etag: update.new_etag, ..result.tool_entry }),
        i,
    );
}

/// What waits for its download is what was decided on, to be installed where the tool is.
pub proof fn law_update_stays_where_the_tool_is(
    name: String,
    entry: ToolEntry,
    release: Release,
    asset: Asset,
    configured_dir: &str,
    etag: Option<String>,
    r: PendingUpdate,
    dir: Seq<char>,
)
    requires
        call_ensures(
            PendingUpdate::new,
            (name, entry, release, asset, configured_dir, etag),
            r,
        ),
        crate::paths::plain_name(entry.binary_name@),
        dir.len() > 0,
        dir.last() != '/',
        text::behind_last(dir, '/') != seq!['.'],
        entry.install_path@ == dir + seq!['/'] + entry.binary_name@,
    ensures
        r.name == name,
        r.entry == entry,
        r.release == release,
        r.asset == asset,
        r.new_etag == etag,
        r.install_dir@ == dir,
{
    assert(entry.binary_name@.contains(entry.binary_name@[0]));
    assert(entry.install_path@ =~= crate::paths::joined(dir, entry.binary_name@));
    crate::installer::law_updates_stay_in_place(entry, dir, configured_dir@);
}

} // verus!
