//! Choosing the asset of a release.

use vstd::prelude::*;

use crate::error::GhrError;
use crate::github::types::{copy_assets, Asset, Release};
use crate::matcher;
use crate::matcher::score::ScoredAsset;
use crate::matcher::{match_asset, MatchOutput};
use crate::text;

verus! {

/// What there is to choose.
pub enum Offer {
    /// This asset, and what to say about it.
    Chosen { asset: Asset, note: String },
    /// Someone has to choose among these, best first.
    Ask { assets: Vec<Asset> },
}

/// The note on an asset that was chosen without asking.
pub open spec fn auto_note(scored: ScoredAsset, user_arch: Seq<char>) -> Seq<char> {
    "Auto-selected asset: "@ + scored.asset.name@ + " (arch match: "@
        + scored.score.arch_match.word() + ", "@ + user_arch + ")"@
}

/// Whether an offer is what the matcher says.
pub open spec fn offer_is(offer: Offer, choice: matcher::Choice, user_arch: Seq<char>) -> bool {
    match choice {
        matcher::Choice::Auto(s) => offer matches Offer::Chosen { asset, note } && asset == s.asset
            && note@ == auto_note(s, user_arch),
        matcher::Choice::Ask(list) => offer matches Offer::Ask { assets } && assets@
            == list.map_values(|s: ScoredAsset| s.asset),
        matcher::Choice::Nothing => false,
    }
}

/// Resolve a release to one asset for an architecture, or to the assets to choose from. `pattern`
/// is the one that was saved with the tool, if it is installed.
pub fn select_asset(
    release: &Release,
    user_arch: &str,
    pattern: Option<&str>,
    repo: &str,
) -> (r: Result<Offer, GhrError>)
    ensures
        ({
            let choice = matcher::choice_for(
                release.assets@,
                user_arch@,
                text::opt_str(pattern),
            );
            match choice {
                matcher::Choice::Nothing => r matches Err(
                    GhrError::NoCompatibleAssets { repo: p, tag },
                ) && p@ == repo@ && tag@ == release.tag_name@,
                _ => r matches Ok(offer) && offer_is(offer, choice, user_arch@),
            }
        }),
{
    let found = match match_asset(
        copy_assets(&release.assets),
        user_arch,
        pattern,
        repo,
        release.tag_name.as_str(),
    ) {
        Ok(found) => found,
        Err(e) => {
            return Err(e);
        },
    };
    match found {
        MatchOutput::AutoSelected(s) => {
            let mut note = "Auto-selected asset: ".to_owned();
            note.append(s.asset.name.as_str());
            note.append(" (arch match: ");
            note.append(s.score.arch_match.label());
            note.append(", ");
            note.append(user_arch);
            note.append(")");
            Ok(Offer::Chosen { asset: s.asset, note })
        },
        MatchOutput::NeedsInteraction(list) => {
            let mut assets: Vec<Asset> = Vec::new();
            for i in 0..list.len()
                invariant
                    assets@ == list@.take(i as int).map_values(|s: ScoredAsset| s.asset),
            {
                assets.push(list[i].asset.clone());
                assert(list@.take(i + 1).map_values(|s: ScoredAsset| s.asset) =~= list@.take(
                    i as int,
                ).map_values(|s: ScoredAsset| s.asset).push(list@[i as int].asset));
            }
            assert(list@.take(list@.len() as int) =~= list@);
            Ok(Offer::Ask { assets })
        },
    }
}

/// How to come to an asset.
pub enum NextPick {
    /// It is this one. There may be something to say about it.
    Done { asset: Asset, note: Option<String> },
    /// The user has to choose among these, best first.
    Ask { assets: Vec<Asset> },
}

/// How to come to an asset by an offer. Where nobody is to be asked, the best one is taken.
pub fn next_pick(offer: Offer, yes: bool) -> (r: NextPick)
    ensures
        match offer {
            Offer::Chosen { asset, note } => r == (NextPick::Done { asset, note: Some(note) }),
            Offer::Ask { assets } => if yes && assets@.len() > 0 {
                r == (NextPick::Done { asset: assets@[0], note: None })
            } else {
                r == (NextPick::Ask { assets })
            },
        },
{
    match offer {
        Offer::Chosen { asset, note } => NextPick::Done { asset, note: Some(note) },
        Offer::Ask { assets } => if yes && assets.len() > 0 {
            NextPick::Done { asset: pick(assets, 0), note: None }
        } else {
            NextPick::Ask { assets }
        },
    }
}

/// The asset that was chosen.
pub fn pick(assets: Vec<Asset>, index: usize) -> (r: Asset)
    requires
        index < assets@.len(),
    ensures
        r == assets@[index as int],
{
    assets[index].clone()
}

} // verus!
