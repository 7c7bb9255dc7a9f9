//! Which asset of a release to install.

pub mod filter;
pub mod pattern;
pub mod score;

use vstd::prelude::*;

use crate::error::GhrError;
use crate::github::types::Asset;
use crate::text;
use score::{ScoredAsset, CONFIDENCE_THRESHOLD};

verus! {

/// What the matcher found.
#[derive(Debug)]
pub enum MatchOutput {
    /// One asset stands out.
    AutoSelected(ScoredAsset),
    /// Someone has to choose among these, best first.
    NeedsInteraction(Vec<ScoredAsset>),
}

/// What there is to find among some assets.
pub enum Choice {
    /// One asset stands out.
    Auto(ScoredAsset),
    /// Someone has to choose among these, best first.
    Ask(Seq<ScoredAsset>),
    /// No asset fits.
    Nothing,
}

impl MatchOutput {
    /// The choice that an output tells.
    pub open spec fn choice(self) -> Choice {
        match self {
            MatchOutput::AutoSelected(s) => Choice::Auto(s),
            MatchOutput::NeedsInteraction(list) => Choice::Ask(list@),
        }
    }
}

/// The assets whose names a pattern matches.
pub open spec fn pattern_hits(assets: Seq<Asset>, pattern: Seq<char>) -> Seq<Asset> {
    assets.filter(|a: Asset| pattern::accepts(pattern, a.name@))
}

/// The assets that pass the filters and have points, best first.
pub open spec fn candidates(assets: Seq<Asset>, arch: Seq<char>) -> Seq<ScoredAsset> {
    score::ranked(score::contenders(assets.filter(|a: Asset| filter::passes_all(a)), arch))
}

/// The choice among ranked assets: the first, if it is the only one or far enough ahead of the
/// second.
pub open spec fn choice_among(list: Seq<ScoredAsset>) -> Choice {
    if list.len() == 0 {
        Choice::Nothing
    } else if list.len() == 1 || list[0].score.total - list[1].score.total
        >= CONFIDENCE_THRESHOLD {
        Choice::Auto(list[0])
    } else {
        Choice::Ask(list)
    }
}

/// The choice among the assets of a release: the one that a saved pattern matches, if it matches
/// exactly one, and else by filters and points.
pub open spec fn choice_for(
    assets: Seq<Asset>,
    arch: Seq<char>,
    stored_pattern: Option<Seq<char>>,
) -> Choice {
    if stored_pattern is Some && pattern_hits(assets, stored_pattern->0).len() == 1 {
        Choice::Auto(score::scored(pattern_hits(assets, stored_pattern->0)[0], arch))
    } else {
        choice_among(candidates(assets, arch))
    }
}

/// Filtering the names of assets is taking the names of the filtered assets.
proof fn lemma_hits_by_name(assets: Seq<Asset>, pat: Seq<char>)
    ensures
        assets.map_values(|a: Asset| a.name@).filter(|n: Seq<char>| pattern::accepts(pat, n))
            == pattern_hits(assets, pat).map_values(|a: Asset| a.name@),
    decreases assets.len(),
{
    reveal(Seq::filter);
    let name = |a: Asset| a.name@;
    if assets.len() > 0 {
        let front = assets.drop_last();
        lemma_hits_by_name(front, pat);
        assert(assets.map_values(name).drop_last() =~= front.map_values(name));
        assert(pattern_hits(front, pat).push(assets.last()).map_values(name) =~= pattern_hits(
            front,
            pat,
        ).map_values(name).push(assets.last().name@));
    } else {
        assert(assets.map_values(name) =~= Seq::empty());
        assert(pattern_hits(assets, pat).map_values(name) =~= Seq::empty());
    }
}

/// The asset that the pattern matches, if it matches exactly one.
pub fn match_stored_pattern(assets: &Vec<Asset>, pat: &str) -> (r: Option<Asset>)
    ensures
        r is Some <==> pattern_hits(assets@, pat@).len() == 1,
        r matches Some(a) ==> a == pattern_hits(assets@, pat@)[0],
{
    let mut names: Vec<&str> = Vec::new();
    for i in 0..assets.len()
        invariant
            names@.len() == i,
            forall|j: int| 0 <= j < i ==> (#[trigger] names@[j])@ == assets@[j].name@,
    {
        names.push(assets[i].name.as_str());
    }
    let matched = pattern::match_pattern(pat, names.as_slice());
    proof {
        lemma_hits_by_name(assets@, pat@);
        assert(text::texts(names@) =~= assets@.map_values(|a: Asset| a.name@));
        assert(text::texts(matched@).len() == matched@.len());
    }
    if matched.len() != 1 {
        return None;
    }
    let matched_name = matched[0];
    let ghost hits = pattern_hits(assets@, pat@);
    let ghost f = |a: Asset| pattern::accepts(pat@, a.name@);
    proof {
        assert(text::texts(matched@)[0] == matched_name@);
        assert(hits.map_values(|a: Asset| a.name@)[0] == hits[0].name@);
        assert(matched_name@ == hits[0].name@);
        assets@.lemma_filter_pred(f, 0);
        assert(f(hits[0]));
    }
    for i in 0..assets.len()
        invariant
            hits == pattern_hits(assets@, pat@),
            f == (|a: Asset| pattern::accepts(pat@, a.name@)),
            hits.len() == 1,
            f(hits[0]),
            matched_name@ == hits[0].name@,
            forall|j: int| 0 <= j < i ==> (#[trigger] assets@[j]).name@ != matched_name@,
    {
        if text::same_text(assets[i].name.as_str(), matched_name) {
            proof {
                assert(f(assets@[i as int]));
                assets@.lemma_filter_contains(f, i as int);
                assert(hits.contains(assets@[i as int]));
            }
            return Some(assets[i].clone());
        }
    }
    proof {
        assets@.lemma_filter_contains_rev(f, hits[0]);
        assert(assets@.contains(hits[0]));
        assert(false);
    }
    None
}

/// Choose the asset of a release to install.
///
/// With a pattern from an earlier install that matches exactly one asset, that asset is taken.
/// Else the assets are filtered, scored and ranked, and the first is taken if it stands out.
pub fn match_asset(
    all_assets: Vec<Asset>,
    user_arch: &str,
    stored_pattern: Option<&str>,
    repo: &str,
    tag: &str,
) -> (r: Result<MatchOutput, GhrError>)
    ensures
        r is Err <==> choice_for(all_assets@, user_arch@, text::opt_str(stored_pattern))
            == Choice::Nothing,
        r matches Ok(m) ==> m.choice() == choice_for(
            all_assets@,
            user_arch@,
            text::opt_str(stored_pattern),
        ),
        r matches Err(e) ==> (e matches GhrError::NoCompatibleAssets { repo: rr, tag: tt } && rr@
            == repo@ && tt@ == tag@),
{
    if let Some(pat) = stored_pattern {
        if let Some(asset) = match_stored_pattern(&all_assets, pat) {
            let score = score::score_asset(&asset, user_arch);
            return Ok(MatchOutput::AutoSelected(ScoredAsset { asset, score }));
        }
    }
    let left = filter::apply_hard_filters(all_assets);
    let mut list = score::score_and_rank(left, user_arch);
    if list.len() == 0 {
        return Err(GhrError::NoCompatibleAssets { repo: repo.to_owned(), tag: tag.to_owned() });
    }
    if list.len() == 1 {
        return Ok(MatchOutput::AutoSelected(list.remove(0)));
    }
    let gap: i64 = list[0].score.total as i64 - list[1].score.total as i64;
    if gap >= CONFIDENCE_THRESHOLD as i64 {
        Ok(MatchOutput::AutoSelected(list.remove(0)))
    } else {
        Ok(MatchOutput::NeedsInteraction(list))
    }
}

/// A saved pattern spares the choice: where one asset has the name that the pattern was made from,
/// with any version in its place, and the pattern matches no other, that asset is taken.
pub proof fn law_saved_pattern_spares_the_choice(
    assets: Seq<Asset>,
    k: int,
    name: Seq<char>,
    tag: Seq<char>,
    new_tag: Seq<char>,
    new_version: Seq<char>,
    arch: Seq<char>,
)
    requires
        0 <= k < assets.len(),
        assets[k].name@ == pattern::name_for_version(name, tag, new_tag, new_version),
        pattern::stars_only(pattern::pattern_of(name, tag)),
        forall|i: int|
            0 <= i < assets.len() && i != k ==> !pattern::accepts(
                pattern::pattern_of(name, tag),
                (#[trigger] assets[i]).name@,
            ),
    ensures
        choice_for(assets, arch, Some(pattern::pattern_of(name, tag))) == Choice::Auto(
            score::scored(assets[k], arch),
        ),
{
    let pat = pattern::pattern_of(name, tag);
    let f = |a: Asset| pattern::accepts(pat, a.name@);
    pattern::law_saved_pattern_matches(name, tag, new_tag, new_version);
    assert forall|i: int| 0 <= i < assets.len() implies f(#[trigger] assets[i]) == (i == k) by {}
    lemma_filter_one(assets, f, k);
}

/// Filtering by a condition that one element alone meets leaves that element.
proof fn lemma_filter_one(assets: Seq<Asset>, f: spec_fn(Asset) -> bool, k: int)
    requires
        k < assets.len(),
        forall|i: int| 0 <= i < assets.len() ==> f(#[trigger] assets[i]) == (i == k),
    ensures
        assets.filter(f) == (if k >= 0 {
            seq![assets[k]]
        } else {
            Seq::<Asset>::empty()
        }),
    decreases assets.len(),
{
    reveal(Seq::filter);
    if assets.len() > 0 {
        let front = assets.drop_last();
        let last = assets.len() - 1;
        assert(f(assets[last]) == (last == k));
        let j = if k == last {
            -1
        } else {
            k
        };
        assert forall|i: int| 0 <= i < front.len() implies f(#[trigger] front[i]) == (i == j) by {
            assert(f(assets[i]) == (i == k));
        }
        lemma_filter_one(front, f, j);
        assert(assets.filter(f) =~= if k >= 0 {
            seq![assets[k]]
        } else {
            Seq::<Asset>::empty()
        });
    }
}

} // verus!
