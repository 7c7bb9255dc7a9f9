//! Repositories, as a user names them.

use vstd::prelude::*;

use crate::cli::Commands;
use crate::repo;
use crate::repo::{parse_repo, RepoError};
use crate::text;
use crate::text::CharClass;
use crate::unicode;

verus! {

/// Neither white space nor a slash stands at the end, and no white space at the beginning.
pub open spec fn clean_ends(s: Seq<char>) -> bool {
    s.len() > 0 ==> !unicode::white_space(s[0]) && !unicode::white_space(s.last()) && s.last() != '/'
}

proof fn lemma_clean(s: Seq<char>)
    requires
        clean_ends(s),
    ensures
        repo::trimmed(s) == s,
{
    text::lemma_trim_keeps(s, CharClass::White);
}

/// A text with one slash has no scheme.
proof fn lemma_one_slash_no_scheme(a: Seq<char>, b: Seq<char>)
    requires
        !a.contains('/'),
        !b.contains('/'),
    ensures
        !text::has_part(a + seq!['/'] + b, "://"@),
        text::count_of(a + seq!['/'] + b, '/') == 1,
{
    let s = a + seq!['/'] + b;
    let n = a.len() as int;
    reveal_strlit("://");
    assert forall|k: int| 0 <= k < s.len() && k != n implies s[k] != '/' by {
        if k < n {
            assert(s[k] == a[k]);
            assert(a.contains(a[k]));
        } else {
            assert(s[k] == b[k - n - 1]);
            assert(b.contains(b[k - n - 1]));
        }
    }
    if text::has_part(s, "://"@) {
        let i = choose|i: int| text::occurs_at(s, "://"@, i);
        assert(s.subrange(i, i + 3)[1] == s[i + 1]);
        assert(s.subrange(i, i + 3)[2] == s[i + 2]);
    }
    assert forall|k: int| 0 <= k < a.len() implies a[k] != '/' by {
        assert(a.contains(a[k]));
    }
    assert forall|k: int| 0 <= k < b.len() implies b[k] != '/' by {
        assert(b.contains(b[k]));
    }
    text::lemma_count_zero(a, '/');
    text::lemma_count_zero(b, '/');
    text::lemma_count_concat(a, seq!['/'], '/');
    text::lemma_count_concat(a + seq!['/'], b, '/');
    assert(seq!['/'].drop_last() =~= Seq::<char>::empty());
    assert(text::count_of(seq!['/'], '/') == 1) by {
        reveal_with_fuel(text::count_of, 2);
    }
}

/// A text `owner/name` names the repository of that name and owner. Only the owner `github.com` is read
/// as a host.
pub proof fn law_owner_and_name_are_taken(
    input: &str,
    owner: Seq<char>,
    name: Seq<char>,
    r: Result<String, RepoError>,
)
    requires
        call_ensures(parse_repo, (input,), r),
        input@ == owner + seq!['/'] + name,
        !owner.contains('/'),
        !name.contains('/'),
        owner != "github.com"@,
        clean_ends(input@),
    ensures
        r matches Ok(t) && t@ == input@,
{
    let s = input@;
    lemma_clean(s);
    lemma_one_slash_no_scheme(owner, name);
    if repo::is_url(s) && repo::on_github(s) {
        reveal_strlit("github.com");
        reveal_strlit("github.com/");
        reveal_strlit("https://");
        reveal_strlit("http://");
        reveal_strlit("www.");
        assert(text::has_prefix(s, "github.com"@));
        assert(s.subrange(0, 10)[0] == s[0]);
        repo::lemma_strip_none(s, "https://"@);
        repo::lemma_strip_none(s, "http://"@);
        repo::lemma_strip_none(s, "www."@);
        assert("github.com/"@.take(10) =~= "github.com"@);
        assert(s =~= owner + (seq!['/'] + name));
        repo::lemma_first_segment(owner, seq!['/'] + name, "github.com"@, "github.com/"@);
    }
}

/// A text that is no URL is refused unless it has exactly one slash; the error says the text.
pub proof fn law_other_texts_are_refused(input: &str, r: Result<String, RepoError>)
    requires
        call_ensures(parse_repo, (input,), r),
        clean_ends(input@),
        !text::has_part(input@, "://"@),
        !text::has_prefix(input@, "github.com"@),
        input@.filter(|c: char| c == '/').len() != 1,
    ensures
        r matches Err(RepoError::NotARepo { input: i }) && i@ == input@,
{
    lemma_clean(input@);
    crate::laws::text::law_count_is_of_places(input@, '/');
}

/// What is found is an owner and a name: it has exactly one slash.
pub proof fn law_found_repository_has_one_slash(input: &str, r: Result<String, RepoError>)
    requires
        call_ensures(parse_repo, (input,), r),
    ensures
        r matches Ok(t) ==> t@.filter(|c: char| c == '/').len() == 1,
        r matches Err(RepoError::NotARepo { input: i }) ==> i@ == input@,
        r matches Err(RepoError::NotAUrl { input: i }) ==> i@ == input@,
{
    repo::law_one_slash(input@);
    if let Ok(t) = r {
        crate::laws::text::law_count_is_of_places(t@, '/');
    }
}

/// How a URL of GitHub begins.
pub open spec fn begins_as_url(start: Seq<char>) -> bool {
    ||| start == "github.com/"@
    ||| start == "https://github.com/"@
    ||| start == "http://github.com/"@
    ||| start == "https://www.github.com/"@
    ||| start == "http://www.github.com/"@
}

/// A URL of GitHub names the repository of its first two segments, whatever follows them.
pub proof fn law_first_two_segments_are_taken(
    input: &str,
    start: Seq<char>,
    owner: Seq<char>,
    name: Seq<char>,
    tail: Seq<char>,
    r: Result<String, RepoError>,
)
    requires
        call_ensures(parse_repo, (input,), r),
        input@ == start + owner + seq!['/'] + name + tail,
        begins_as_url(start),
        owner.len() > 0,
        name.len() > 0,
        !owner.contains('/'),
        !name.contains('/'),
        owner != "github.com"@,
        tail.len() > 0 ==> tail[0] == '/',
        !unicode::white_space((name + tail).last()),
    ensures
        r matches Ok(t) && t@ == owner + seq!['/'] + name,
{
    repo::law_url_names_its_repo(start, owner, name, tail);
}

/// A URL of GitHub that has no repository behind its owner, or no owner, names nothing.
pub proof fn law_url_without_repository_is_refused(
    input: &str,
    start: Seq<char>,
    word: Seq<char>,
    ownerless: bool,
    r: Result<String, RepoError>,
)
    requires
        call_ensures(parse_repo, (input,), r),
        input@ == if ownerless {
            start + seq!['/'] + word
        } else {
            start + word
        },
        begins_as_url(start),
        word.len() > 0,
        !word.contains('/'),
        !unicode::white_space(word.last()),
    ensures
        r matches Err(RepoError::NotAUrl { input: i }) && i@ == input@,
{
    let s = input@;
    let rest = if ownerless {
        seq!['/'] + word
    } else {
        word
    };
    assert(s =~= start + rest);
    reveal_strlit("github.com/");
    reveal_strlit("https://github.com/");
    reveal_strlit("http://github.com/");
    reveal_strlit("https://www.github.com/");
    reveal_strlit("http://www.github.com/");
    assert(s[0] == start[0]);
    assert(s.last() == word.last());
    assert(word.contains(word.last()));
    assert(clean_ends(s));
    lemma_clean(s);
    assert(!text::has_prefix(rest, "github.com/"@)) by {
        if text::has_prefix(rest, "github.com/"@) {
            let head = rest.subrange(0, 11);
            assert(head[0] == rest[0] && head[10] == rest[10]);
            if !ownerless {
                assert(word.contains(word[10]));
            }
        }
    }
    repo::lemma_url_path(start, rest);
    assert forall|k: int| 0 <= k < word.len() implies word[k] != '/' by {
        assert(word.contains(word[k]));
    }
    text::lemma_one_piece(word, '/');
    if ownerless {
        let none = Seq::<char>::empty();
        assert(rest =~= none + seq!['/'] + word);
        text::lemma_first_piece(none, '/', word);
    }
}

/// A URL of another host names nothing.
pub proof fn law_other_hosts_name_nothing(
    input: &str,
    start: Seq<char>,
    host: Seq<char>,
    tail: Seq<char>,
    r: Result<String, RepoError>,
)
    requires
        call_ensures(parse_repo, (input,), r),
        input@ == start + host + tail,
        start == "https://"@ || start == "http://"@ || start == "https://www."@ || start
            == "http://www."@,
        host.len() > 0,
        !host.contains('/'),
        !unicode::white_space(host.last()),
        tail.len() > 0 ==> tail[0] == '/',
        host != "github.com"@,
        host != "https:"@,
        host != "http:"@,
        !text::has_prefix(host, "www."@),
    ensures
        r matches Err(RepoError::NotAUrl { input: i }) && i@ == input@,
{
    repo::law_other_hosts_are_refused(start, host, tail);
}

/// Every text is read in one of three ways, without white space around it and slashes at its end. One
/// with a scheme, or that begins with the host, is a URL; it is one of GitHub if the host follows the
/// schemes and the `www.` that it begins with. A URL of GitHub gives its first two segments, which may
/// not be empty. Any other text gives itself if it has one slash and no scheme. All else is refused.
pub proof fn law_every_text_is_read(
    input: &str,
    s: Seq<char>,
    host: Seq<char>,
    path: Seq<char>,
    r: Result<String, RepoError>,
)
    requires
        call_ensures(parse_repo, (input,), r),
        s == text::trim_back(text::trim_both(input@, CharClass::White), CharClass::Only('/')),
        host == text::strip_copies(
            text::strip_copies(text::strip_copies(s, "https://"@), "http://"@),
            "www."@,
        ),
        path == text::strip_copies(host, "github.com/"@),
    ensures
        ({
            let scheme = text::has_part(s, "://"@);
            let url = scheme || text::has_prefix(s, "github.com"@);
            let ours = url && text::has_prefix(host, "github.com/"@);
            let parts = text::pieces(path, '/');
            let whole = parts.len() >= 2 && parts[0].len() > 0 && parts[1].len() > 0;
            let slashes = s.filter(|c: char| c == '/').len();
            &&& ours && whole ==> (r matches Ok(t) && t@ == parts[0] + seq!['/'] + parts[1])
            &&& !ours && !scheme && slashes == 1 ==> (r matches Ok(t) && t@ == s)
            &&& r is Ok ==> (ours && whole) || (!ours && !scheme && slashes == 1)
            &&& r matches Err(e) ==> (e is NotAUrl <==> url)
        }),
{
    crate::laws::text::law_count_is_of_places(s, '/');
}

/// White space around a text and slashes at its end change nothing.
pub proof fn law_surroundings_do_not_count(
    input: &str,
    longer: &str,
    before: Seq<char>,
    after: Seq<char>,
    a: Result<String, RepoError>,
    b: Result<String, RepoError>,
)
    requires
        call_ensures(parse_repo, (input,), a),
        call_ensures(parse_repo, (longer,), b),
        input@.len() > 0,
        clean_ends(input@),
        longer@ == before + input@ + after,
        forall|i: int| 0 <= i < before.len() ==> unicode::white_space(#[trigger] before[i]),
        (forall|i: int| 0 <= i < after.len() ==> unicode::white_space(#[trigger] after[i])) || (forall|
            i: int,
        |
            0 <= i < after.len() ==> #[trigger] after[i] == '/'),
    ensures
        a is Ok <==> b is Ok,
        a matches Ok(s) ==> (b matches Ok(t) && s@ == t@),
{
    let s = input@;
    lemma_clean(s);
    let white = CharClass::White;
    let slash = CharClass::Only('/');
    lemma_front_gone(before, s + after, white);
    assert(before + (s + after) =~= longer@);
    assert((s + after)[0] == s[0]);
    if forall|i: int| 0 <= i < after.len() ==> unicode::white_space(#[trigger] after[i]) {
        lemma_back_gone(s, after, white);
        assert(text::trim_both(longer@, white) == s);
    } else {
        assert(!white.includes('/'));
        if after.len() > 0 {
            assert(after[after.len() - 1] == '/');
        }
        text::lemma_trim_keeps(s + after, white);
        assert(text::trim_both(longer@, white) == s + after);
        lemma_back_gone(s, after, slash);
    }
}

proof fn lemma_front_gone(before: Seq<char>, s: Seq<char>, class: CharClass)
    requires
        forall|i: int| 0 <= i < before.len() ==> class.includes(#[trigger] before[i]),
        s.len() > 0,
        !class.includes(s[0]),
    ensures
        text::trim_front(before + s, class) == s,
    decreases before.len(),
{
    if before.len() == 0 {
        assert(before + s =~= s);
    } else {
        let more = before.drop_first();
        assert forall|i: int| 0 <= i < more.len() implies class.includes(#[trigger] more[i]) by {
            assert(class.includes(before[i + 1]));
        }
        lemma_front_gone(more, s, class);
        assert((before + s).drop_first() =~= more + s);
        assert((before + s)[0] == before[0]);
        assert((before + s).skip(1) =~= more + s);
    }
}

proof fn lemma_back_gone(s: Seq<char>, after: Seq<char>, class: CharClass)
    requires
        forall|i: int| 0 <= i < after.len() ==> class.includes(#[trigger] after[i]),
        s.len() > 0,
        !class.includes(s.last()),
    ensures
        text::trim_back(s + after, class) == s,
    decreases after.len(),
{
    if after.len() == 0 {
        assert(s + after =~= s);
    } else {
        let less = after.drop_last();
        assert forall|i: int| 0 <= i < less.len() implies class.includes(#[trigger] less[i]) by {
            assert(class.includes(after[i]));
        }
        lemma_back_gone(s, less, class);
        assert((s + after).drop_last() =~= s + less);
        assert((s + after).last() == after[after.len() - 1]);
    }
}

/// The repository of a command is read as every other; nothing else of a command changes, and a command
/// without a repository stays.
pub proof fn law_commands_keep_all_else(
    command: Commands,
    input: &str,
    parsed: Result<String, RepoError>,
    r: Result<Commands, RepoError>,
)
    requires
        call_ensures(Commands::resolve, (command,), r),
        call_ensures(parse_repo, (input,), parsed),
        command matches Commands::Install { repo, .. } ==> repo@ == input@,
        command matches Commands::Adopt { repo, .. } ==> repo@ == input@,
    ensures
        match command {
            Commands::Install { tag, alias, to, prerelease, yes, .. } => match parsed {
                Ok(found) => match r {
                    Ok(Commands::Install { repo, tag: t, alias: a, to: o, prerelease: p, yes: y }) =>
                        repo@ == found@ && t == tag && a == alias && o == to && p == prerelease && y
                        == yes,
                    _ => false,
                },
                Err(_) => r is Err,
            },
            Commands::Adopt { path, .. } => match parsed {
                Ok(found) => match r {
                    Ok(Commands::Adopt { repo, path: p }) => repo@ == found@ && p == path,
                    _ => false,
                },
                Err(_) => r is Err,
            },
            _ => r == Ok::<Commands, RepoError>(command),
        },
{
}

} // verus!
