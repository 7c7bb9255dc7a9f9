//! What the operations on texts mean, in terms of characters and their places.

use vstd::prelude::*;

use crate::text;
use crate::text::CharClass;
use crate::unicode;

verus! {

/// A text holds a part exactly if it is that part with something before and behind it.
pub proof fn law_part_is_between(s: Seq<char>, part: Seq<char>)
    ensures
        text::has_part(s, part) <==> exists|a: Seq<char>, b: Seq<char>| s == #[trigger] (a + part + b),
{
    if text::has_part(s, part) {
        let i = choose|i: int| text::occurs_at(s, part, i);
        let a = s.take(i);
        let b = s.skip(i + part.len());
        assert(s =~= a + part + b) by {
            assert forall|k: int| 0 <= k < part.len() implies s[i + k] == part[k] by {
                assert(s.subrange(i, i + part.len())[k] == part[k]);
            }
        }
    }
    assert forall|a: Seq<char>, b: Seq<char>| s == #[trigger] (a + part + b) implies text::has_part(
        s,
        part,
    ) by {
        let i = a.len() as int;
        assert(s.subrange(i, i + part.len()) =~= part);
        assert(text::occurs_at(s, part, i));
    }
}

/// A text begins with a part exactly if it is that part with something behind it.
pub proof fn law_prefix_comes_first(s: Seq<char>, part: Seq<char>)
    ensures
        text::has_prefix(s, part) <==> exists|b: Seq<char>| s == #[trigger] (part + b),
{
    if text::has_prefix(s, part) {
        let b = s.skip(part.len() as int);
        assert(s =~= part + b) by {
            assert forall|k: int| 0 <= k < part.len() implies s[k] == part[k] by {
                assert(s.subrange(0, part.len() as int)[k] == part[k]);
            }
        }
    }
    assert forall|b: Seq<char>| s == #[trigger] (part + b) implies text::has_prefix(s, part) by {
        assert(s.subrange(0, part.len() as int) =~= part);
    }
}

/// A text ends with a part exactly if it is that part with something before it.
pub proof fn law_suffix_comes_last(s: Seq<char>, part: Seq<char>)
    ensures
        text::has_suffix(s, part) <==> exists|a: Seq<char>| s == #[trigger] (a + part),
{
    if text::has_suffix(s, part) {
        let n = s.len() - part.len();
        let a = s.take(n);
        assert(s =~= a + part) by {
            assert forall|k: int| 0 <= k < part.len() implies s[n + k] == part[k] by {
                assert(s.subrange(n, n + part.len())[k] == part[k]);
            }
        }
    }
    assert forall|a: Seq<char>| s == #[trigger] (a + part) implies text::has_suffix(s, part) by {
        assert(s.subrange(a.len() as int, a.len() as int + part.len()) =~= part);
    }
}

/// Looking for one of several parts is looking for each of them.
pub proof fn law_any_is_one_of_them(s: Seq<char>, parts: Seq<Seq<char>>)
    ensures
        text::has_any_part(s, parts) <==> exists|p: Seq<char>| #[trigger]
            parts.contains(p) && text::has_part(s, p),
        text::has_any_suffix(s, parts) <==> exists|p: Seq<char>| #[trigger]
            parts.contains(p) && text::has_suffix(s, p),
{
    if text::has_any_part(s, parts) {
        let k = choose|k: int| 0 <= k < parts.len() && text::has_part(s, #[trigger] parts[k]);
        assert(parts.contains(parts[k]));
    }
    if text::has_any_suffix(s, parts) {
        let k = choose|k: int| 0 <= k < parts.len() && text::has_suffix(s, #[trigger] parts[k]);
        assert(parts.contains(parts[k]));
    }
}

/// A class holds white space, or the one character.
pub proof fn law_class_of_characters(c: char, d: char)
    ensures
        CharClass::White.includes(c) == unicode::white_space(c),
        CharClass::Only(d).includes(c) <==> c == d,
        c == ' ' || c == '\t' || c == '\n' || c == '\r' ==> unicode::white_space(c),
        '!' <= c && c <= '~' ==> !unicode::white_space(c),
{
}

/// What is trimmed at the front belongs to the class, and what is left does not begin with it.
pub proof fn law_front_is_trimmed(s: Seq<char>, class: CharClass)
    ensures
        ({
            let left = text::trim_front(s, class);
            let n = s.len() - left.len();
            &&& 0 <= n
            &&& left == s.skip(n)
            &&& forall|i: int| 0 <= i < n ==> class.includes(#[trigger] s[i])
            &&& left.len() > 0 ==> !class.includes(left[0])
        }),
    decreases s.len(),
{
    if s.len() > 0 && class.includes(s[0]) {
        let more = s.drop_first();
        law_front_is_trimmed(more, class);
        let left = text::trim_front(s, class);
        let n = s.len() - left.len();
        assert(more.skip(n - 1) =~= s.skip(n));
        assert forall|i: int| 0 <= i < n implies class.includes(#[trigger] s[i]) by {
            if i > 0 {
                assert(class.includes(more[i - 1]));
            }
        }
    } else {
        assert(s.skip(0) =~= s);
    }
}

/// What is trimmed at the back belongs to the class, and what is left does not end with it.
pub proof fn law_back_is_trimmed(s: Seq<char>, class: CharClass)
    ensures
        ({
            let left = text::trim_back(s, class);
            &&& left.len() <= s.len()
            &&& left == s.take(left.len() as int)
            &&& forall|i: int| left.len() <= i < s.len() ==> class.includes(#[trigger] s[i])
            &&& left.len() > 0 ==> !class.includes(left.last())
        }),
    decreases s.len(),
{
    if s.len() > 0 && class.includes(s.last()) {
        let front = s.drop_last();
        law_back_is_trimmed(front, class);
        let left = text::trim_back(s, class);
        assert(front.take(left.len() as int) =~= s.take(left.len() as int));
        assert forall|i: int| left.len() <= i < s.len() implies class.includes(#[trigger] s[i]) by {
            if i < front.len() {
                assert(class.includes(front[i]));
            }
        }
    } else {
        assert(s.take(s.len() as int) =~= s);
    }
}

/// Trimming at both ends leaves a stretch of the text with nothing of the class at its ends, and
/// takes away nothing else.
pub proof fn law_both_ends_are_trimmed(s: Seq<char>, class: CharClass)
    ensures
        exists|i: int, j: int|
            0 <= i <= j <= s.len() && #[trigger] s.subrange(i, j) == text::trim_both(s, class) && (
            forall|k: int| 0 <= k < i || j <= k < s.len() ==> class.includes(#[trigger] s[k])) && (i
                < j ==> !class.includes(s[i]) && !class.includes(s[j - 1])),
{
    law_front_is_trimmed(s, class);
    let front = text::trim_front(s, class);
    law_back_is_trimmed(front, class);
    let left = text::trim_back(front, class);
    let i = s.len() - front.len();
    let j = i + left.len();
    assert(s.subrange(i, j) =~= left);
    assert forall|k: int| 0 <= k < i || j <= k < s.len() implies class.includes(#[trigger] s[k]) by {
        if j <= k {
            assert(class.includes(front[k - i]));
        }
    }
}

/// Copies of a part, one behind the other.
pub open spec fn copies(part: Seq<char>, n: nat) -> Seq<char>
    decreases n,
{
    if n == 0 {
        Seq::empty()
    } else {
        part + copies(part, (n - 1) as nat)
    }
}

/// What is stripped at the front is copies of the part, and what is left does not begin with one.
pub proof fn law_copies_are_stripped(s: Seq<char>, part: Seq<char>)
    requires
        part.len() > 0,
    ensures
        !text::has_prefix(text::strip_copies(s, part), part),
        exists|n: nat| s == #[trigger] copies(part, n) + text::strip_copies(s, part),
    decreases s.len(),
{
    let left = text::strip_copies(s, part);
    if text::has_prefix(s, part) {
        let more = s.skip(part.len() as int);
        law_copies_are_stripped(more, part);
        let n = choose|n: nat| more == #[trigger] copies(part, n) + text::strip_copies(more, part);
        law_prefix_comes_first(s, part);
        assert(s =~= part + more) by {
            assert forall|k: int| 0 <= k < part.len() implies s[k] == part[k] by {
                assert(s.subrange(0, part.len() as int)[k] == part[k]);
            }
        }
        assert(s =~= copies(part, n + 1) + left);
    } else {
        assert(s =~= copies(part, 0) + left);
    }
}

/// Pieces put together again, with the separator between them.
pub open spec fn rejoined(list: Seq<Seq<char>>, sep: char) -> Seq<char>
    decreases list.len(),
{
    if list.len() == 0 {
        Seq::empty()
    } else if list.len() == 1 {
        list[0]
    } else {
        rejoined(list.drop_last(), sep) + seq![sep] + list.last()
    }
}

/// The pieces of a text hold no separator, and put together with it they are the text.
pub proof fn law_pieces_make_the_text(s: Seq<char>, sep: char)
    ensures
        text::pieces(s, sep).len() > 0,
        rejoined(text::pieces(s, sep), sep) == s,
        forall|k: int|
            0 <= k < text::pieces(s, sep).len() ==> !(#[trigger] text::pieces(s, sep)[k]).contains(
                sep,
            ),
    decreases s.len(),
{
    text::lemma_pieces_lack(s, sep);
    let all = text::pieces(s, sep);
    assert forall|k: int| 0 <= k < all.len() implies !(#[trigger] all[k]).contains(sep) by {
        if all[k].contains(sep) {
            let i = choose|i: int| 0 <= i < all[k].len() && all[k][i] == sep;
            assert(text::pieces(s, sep)[k][i] != sep);
        }
    }
    if s.len() > 0 {
        let front = s.drop_last();
        law_pieces_make_the_text(front, sep);
        let list = text::pieces(front, sep);
        if s.last() == sep {
            assert(all.drop_last() =~= list);
            assert(rejoined(all, sep) =~= front + seq![sep] + Seq::<char>::empty());
            assert(s =~= front + seq![sep] + Seq::<char>::empty());
        } else if list.len() == 1 {
            assert(rejoined(all, sep) =~= s);
        } else {
            let head = rejoined(list.drop_last(), sep) + seq![sep];
            assert(all.drop_last() =~= list.drop_last());
            assert(all.last() == list.last().push(s.last()));
            assert(front == head + list.last());
            assert(s =~= front.push(s.last()));
            assert(rejoined(all, sep) == head + all.last());
            assert(head + list.last().push(s.last()) =~= (head + list.last()).push(s.last()));
        }
    }
}

/// What stands behind the last separator holds none, and what stands before it ends with one.
pub proof fn law_last_part_is_behind_the_separator(s: Seq<char>, sep: char)
    ensures
        ({
            let last = text::behind_last(s, sep);
            let n = s.len() - last.len();
            &&& 0 <= n
            &&& last == s.skip(n)
            &&& !last.contains(sep)
            &&& n > 0 ==> s[n - 1] == sep
        }),
    decreases s.len(),
{
    if s.len() > 0 && s.last() != sep {
        let front = s.drop_last();
        law_last_part_is_behind_the_separator(front, sep);
        let head = text::behind_last(front, sep);
        let last = text::behind_last(s, sep);
        let n = s.len() - last.len();
        assert(last =~= s.skip(n));
        assert forall|i: int| 0 <= i < last.len() implies last[i] != sep by {
            if i < head.len() {
                assert(head.contains(head[i]));
            }
        }
    } else if s.len() > 0 {
        assert(s.skip(s.len() as int) =~= Seq::<char>::empty());
    } else {
        assert(s.skip(0) =~= s);
    }
}

/// The count of a character is the number of places that have it.
pub proof fn law_count_is_of_places(s: Seq<char>, c: char)
    ensures
        text::count_of(s, c) == s.filter(|d: char| d == c).len(),
    decreases s.len(),
{
    reveal(Seq::filter);
    if s.len() > 0 {
        law_count_is_of_places(s.drop_last(), c);
    }
}

/// Texts are ordered by the first character in which they differ, and a text comes before all that it
/// begins.
pub proof fn law_first_difference_orders(
    same: Seq<char>,
    c: char,
    d: char,
    a: Seq<char>,
    b: Seq<char>,
)
    ensures
        text::text_le(same, same + a),
        a.len() > 0 ==> !text::text_le(same + a, same),
        c < d ==> text::text_le(same + seq![c] + a, same + seq![d] + b),
        c < d ==> !text::text_le(same + seq![d] + b, same + seq![c] + a),
    decreases same.len(),
{
    let x = same + seq![c] + a;
    let y = same + seq![d] + b;
    if same.len() == 0 {
        assert(same + a =~= a);
    } else {
        let more = same.drop_first();
        law_first_difference_orders(more, c, d, a, b);
        assert((same + a).drop_first() =~= more + a);
        assert(x.drop_first() =~= more + seq![c] + a);
        assert(y.drop_first() =~= more + seq![d] + b);
    }
}

/// The first place of a part is where it is replaced first; what stands before it stays, and it goes
/// on behind it. A text without the part stays.
pub proof fn law_first_place_is_replaced(
    before: Seq<char>,
    part: Seq<char>,
    after: Seq<char>,
    by: Seq<char>,
)
    requires
        part.len() > 0,
        forall|i: int|
            0 <= i < before.len() ==> !text::occurs_at(before + part + after, part, i),
    ensures
        text::replaced(before + part + after, part, by) == before + by + text::replaced(
            after,
            part,
            by,
        ),
    decreases before.len(),
{
    let s = before + part + after;
    if before.len() == 0 {
        assert(s.subrange(0, part.len() as int) =~= part);
        assert(s.skip(part.len() as int) =~= after);
        assert(before + by =~= by);
    } else {
        let more = before.drop_first();
        assert(s.drop_first() =~= more + part + after);
        assert forall|i: int| 0 <= i < more.len() implies !text::occurs_at(
            more + part + after,
            part,
            i,
        ) by {
            assert(!text::occurs_at(s, part, i + 1));
            if i + part.len() <= (more + part + after).len() {
                assert(s.subrange(i + 1, i + 1 + part.len()) =~= (more + part + after).subrange(
                    i,
                    i + part.len(),
                ));
            }
        }
        law_first_place_is_replaced(more, part, after, by);
        assert(!text::occurs_at(s, part, 0));
        assert(s[0] == before[0]);
        assert(seq![s[0]] + (more + by + text::replaced(after, part, by)) =~= before + by
            + text::replaced(after, part, by));
    }
}

/// A text that does not hold the part stays as it is.
pub proof fn law_absent_part_is_not_replaced(s: Seq<char>, part: Seq<char>, by: Seq<char>)
    requires
        part.len() > 0,
        !text::has_part(s, part),
    ensures
        text::replaced(s, part, by) == s,
    decreases s.len(),
{
    if s.len() > 0 {
        let more = s.drop_first();
        if text::has_part(more, part) {
            let i = choose|i: int| text::occurs_at(more, part, i);
            assert(s.subrange(i + 1, i + 1 + part.len()) =~= more.subrange(i, i + part.len()));
            assert(text::occurs_at(s, part, i + 1));
        }
        law_absent_part_is_not_replaced(more, part, by);
        assert(!text::occurs_at(s, part, 0));
        assert(seq![s[0]] + more =~= s);
    }
}

/// An empty part stands before every character and at the end.
pub proof fn law_empty_part_is_everywhere(c: char, s: Seq<char>, by: Seq<char>)
    ensures
        text::replaced(Seq::empty(), Seq::empty(), by) == by,
        text::replaced(seq![c] + s, Seq::empty(), by) == by + seq![c] + text::replaced(
            s,
            Seq::empty(),
            by,
        ),
{
    assert((seq![c] + s).drop_first() =~= s);
}

/// Padding puts spaces behind the text, up to the width.
pub proof fn law_padding_is_spaces(s: Seq<char>, width: nat)
    ensures
        text::padded(s, width).len() == if s.len() < width {
            width
        } else {
            s.len()
        },
        forall|i: int|
            0 <= i < text::padded(s, width).len() ==> #[trigger] text::padded(s, width)[i] == if i
                < s.len() {
                s[i]
            } else {
                ' '
            },
{
}

/// In lower case a text of ASCII characters has as many characters, its capital letters are small
/// ones, and the other characters are the same.
pub proof fn law_capitals_become_small(s: Seq<char>, i: int)
    requires
        forall|j: int| 0 <= j < s.len() ==> (#[trigger] s[j]) <= '\x7f',
        0 <= i < s.len(),
    ensures
        unicode::lowercase(s).len() == s.len(),
        'A' <= s[i] && s[i] <= 'Z' ==> unicode::lowercase(s)[i] as int == s[i] as int + 32,
        !('A' <= s[i] && s[i] <= 'Z') ==> unicode::lowercase(s)[i] == s[i],
{
}

} // verus!
