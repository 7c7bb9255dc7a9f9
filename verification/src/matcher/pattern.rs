//! Patterns of asset names that outlive a version.

use vstd::prelude::*;

use crate::text;
use crate::text::CharClass;

verus! {

/// Whether `glob::Pattern::new` accepts a pattern.
pub uninterp spec fn glob_valid(pattern: Seq<char>) -> bool;

/// Whether `glob::Pattern::matches` holds of a valid pattern and a name.
pub uninterp spec fn glob_matches(pattern: Seq<char>, name: Seq<char>) -> bool;

/// A pattern whose only wildcards are stars that stand alone.
pub open spec fn stars_only(pattern: Seq<char>) -> bool {
    &&& forall|i: int|
        0 <= i < pattern.len() ==> (#[trigger] pattern[i]) != '?' && pattern[i] != '['
    &&& forall|i: int, j: int|
        0 <= i < pattern.len() && j == i + 1 && j < pattern.len() ==> !(#[trigger] pattern[i] == '*'
            && #[trigger] pattern[j] == '*')
}

/// The name is the pattern with a text, maybe empty, in place of each star.
pub open spec fn star_match(pattern: Seq<char>, name: Seq<char>) -> bool
    decreases pattern.len(), name.len(),
{
    if pattern.len() == 0 {
        name.len() == 0
    } else if pattern[0] == '*' {
        star_match(pattern.drop_first(), name) || (name.len() > 0 && star_match(
            pattern,
            name.drop_first(),
        ))
    } else {
        name.len() > 0 && name[0] == pattern[0] && star_match(
            pattern.drop_first(),
            name.drop_first(),
        )
    }
}

/// The pattern matches the name. Patterns that hold other wildcards than lone stars match nothing
/// unless they are valid.
pub open spec fn accepts(pattern: Seq<char>, name: Seq<char>) -> bool {
    if stars_only(pattern) {
        star_match(pattern, name)
    } else {
        glob_valid(pattern) && glob_matches(pattern, name)
    }
}

/// Calls `glob::Pattern::new` and, where the pattern is valid, `matches` of it: both depend on
/// their arguments alone. A pattern whose only wildcards are stars that stand alone is valid, and
/// each star matches any text; what other patterns match is left to the crate.
#[verifier::external_body]
fn glob_match(pattern: &str, name: &str) -> (r: Option<bool>)
    ensures
        r is Some <==> glob_valid(pattern@),
        r matches Some(b) ==> b == glob_matches(pattern@, name@),
        stars_only(pattern@) ==> r == Some(star_match(pattern@, name@)),
{
    glob::Pattern::new(pattern).ok().map(|p| p.matches(name))
}

/// The pattern for an asset of the release `tag`: the name with a star for the tag or, if it does
/// not hold the tag, for the tag without the `v` before it.
pub open spec fn pattern_of(name: Seq<char>, tag: Seq<char>) -> Seq<char> {
    let with_tag = text::replaced(name, tag, "*"@);
    if with_tag != name {
        with_tag
    } else {
        text::replaced(name, text::trim_front(tag, CharClass::Only('v')), "*"@)
    }
}

/// Make a pattern from the name of an asset by putting `*` for the version.
/// E.g. `gh_2.45.0_linux_amd64.tar.gz` with the tag `v2.45.0` gives `gh_*_linux_amd64.tar.gz`.
pub fn asset_to_pattern(asset_name: &str, tag: &str) -> (r: String)
    ensures
        r@ == pattern_of(asset_name@, tag@),
{
    let version = text::trim_start(tag, CharClass::Only('v'));
    let with_v = text::replace(asset_name, tag, "*");
    if !text::same_text(with_v.as_str(), asset_name) {
        return with_v;
    }
    text::replace(asset_name, version, "*")
}

/// The names that the pattern matches, in their order; none if the pattern is not valid.
pub fn match_pattern<'a>(pattern: &str, asset_names: &[&'a str]) -> (r: Vec<&'a str>)
    ensures
        text::texts(r@) == text::texts(asset_names@).filter(
            |n: Seq<char>| accepts(pattern@, n),
        ),
{
    let mut out: Vec<&'a str> = Vec::new();
    let ghost names = text::texts(asset_names@);
    let ghost f = |n: Seq<char>| accepts(pattern@, n);
    proof {
        reveal(Seq::filter);
        assert(text::texts(out@) =~= names.take(0).filter(f));
    }
    for i in 0..asset_names.len()
        invariant
            names == text::texts(asset_names@),
            f == (|n: Seq<char>| accepts(pattern@, n)),
            text::texts(out@) == names.take(i as int).filter(f),
    {
        let ghost before = text::texts(out@);
        proof {
            reveal(Seq::filter);
            assert(names.take(i + 1).drop_last() =~= names.take(i as int));
            assert(names[i as int] == asset_names@[i as int]@);
        }
        if let Some(true) = glob_match(pattern, asset_names[i]) {
            out.push(asset_names[i]);
            assert(text::texts(out@) =~= before.push(asset_names@[i as int]@));
        }
    }
    proof {
        assert(names.take(names.len() as int) =~= names);
    }
    out
}

// ---- Laws -----------------------------------------------------------------------------------

proof fn lemma_star_takes(pattern: Seq<char>, skipped: Seq<char>, rest: Seq<char>)
    requires
        pattern.len() > 0,
        pattern[0] == '*',
        star_match(pattern.drop_first(), rest),
    ensures
        star_match(pattern, skipped + rest),
    decreases skipped.len(),
{
    if skipped.len() == 0 {
        assert(skipped + rest =~= rest);
    } else {
        lemma_star_takes(pattern, skipped.drop_first(), rest);
        assert((skipped + rest).drop_first() =~= skipped.drop_first() + rest);
    }
}

/// A pattern that stands for a part matches the name with any other text in place of that part.
pub proof fn law_pattern_matches_other_version(
    name: Seq<char>,
    part: Seq<char>,
    version: Seq<char>,
)
    ensures
        star_match(text::replaced(name, part, "*"@), text::replaced(name, part, version)),
    decreases name.len(),
{
    reveal_strlit("*");
    let star = "*"@;
    assert(star =~= seq!['*']);
    let p = text::replaced(name, part, star);
    let n = text::replaced(name, part, version);
    if part.len() == 0 {
        if name.len() == 0 {
            assert(p.drop_first() =~= Seq::<char>::empty());
            lemma_star_takes(p, version, Seq::empty());
            assert(version + Seq::<char>::empty() =~= version);
        } else {
            law_pattern_matches_other_version(name.drop_first(), part, version);
            let p1 = text::replaced(name.drop_first(), part, star);
            let n1 = text::replaced(name.drop_first(), part, version);
            let q = seq![name[0]] + p1;
            let m = seq![name[0]] + n1;
            assert(q.drop_first() =~= p1);
            assert(m.drop_first() =~= n1);
            if name[0] == '*' {
                assert(star_match(q, n1));
            }
            assert(star_match(q, m));
            assert(p =~= star + q);
            assert(p.drop_first() =~= q);
            assert(n =~= version + m);
            lemma_star_takes(p, version, m);
        }
    } else if name.len() > 0 {
        if text::has_prefix(name, part) {
            let rest = name.skip(part.len() as int);
            law_pattern_matches_other_version(rest, part, version);
            assert(p.drop_first() =~= text::replaced(rest, part, star));
            lemma_star_takes(p, version, text::replaced(rest, part, version));
        } else {
            law_pattern_matches_other_version(name.drop_first(), part, version);
            let p1 = text::replaced(name.drop_first(), part, star);
            let n1 = text::replaced(name.drop_first(), part, version);
            assert(p.drop_first() =~= p1);
            assert(n.drop_first() =~= n1);
            if name[0] == '*' {
                assert(star_match(p, n1));
            }
        }
    }
}

/// Replacing a part by itself changes nothing.
proof fn lemma_replaced_by_itself(name: Seq<char>, part: Seq<char>)
    requires
        part.len() > 0,
    ensures
        text::replaced(name, part, part) == name,
    decreases name.len(),
{
    if name.len() > 0 {
        if text::has_prefix(name, part) {
            lemma_replaced_by_itself(name.skip(part.len() as int), part);
            assert(part + name.skip(part.len() as int) =~= name);
        } else {
            lemma_replaced_by_itself(name.drop_first(), part);
            assert(seq![name[0]] + name.drop_first() =~= name);
        }
    }
}

/// Replacing an empty part by nothing changes nothing.
proof fn lemma_nothing_by_nothing(name: Seq<char>, part: Seq<char>)
    requires
        part.len() == 0,
    ensures
        text::replaced(name, part, part) == name,
    decreases name.len(),
{
    if name.len() > 0 {
        lemma_nothing_by_nothing(name.drop_first(), part);
        assert(part + seq![name[0]] + name.drop_first() =~= name);
    } else {
        assert(part =~= name);
    }
}

/// The name of the asset as it would be in a release with another version: the part that the
/// pattern stands for, replaced.
pub open spec fn name_for_version(
    name: Seq<char>,
    tag: Seq<char>,
    new_tag: Seq<char>,
    new_version: Seq<char>,
) -> Seq<char> {
    if text::replaced(name, tag, "*"@) != name {
        text::replaced(name, tag, new_tag)
    } else {
        text::replaced(name, text::trim_front(tag, CharClass::Only('v')), new_version)
    }
}

/// The saved pattern matches the asset it was made from, and the asset of that name in every
/// other release.
pub proof fn law_saved_pattern_matches(
    name: Seq<char>,
    tag: Seq<char>,
    new_tag: Seq<char>,
    new_version: Seq<char>,
)
    ensures
        star_match(pattern_of(name, tag), name),
        star_match(pattern_of(name, tag), name_for_version(name, tag, new_tag, new_version)),
{
    let version = text::trim_front(tag, CharClass::Only('v'));
    law_pattern_matches_other_version(name, tag, new_tag);
    law_pattern_matches_other_version(name, version, new_version);
    law_pattern_matches_other_version(name, tag, tag);
    law_pattern_matches_other_version(name, version, version);
    if tag.len() > 0 {
        lemma_replaced_by_itself(name, tag);
    } else {
        lemma_nothing_by_nothing(name, tag);
    }
    if version.len() > 0 {
        lemma_replaced_by_itself(name, version);
    } else {
        lemma_nothing_by_nothing(name, version);
    }
}

} // verus!
