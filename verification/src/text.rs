//! Texts as sequences of characters: searching, trimming, splitting, replacing, ordering.

use vstd::prelude::*;

use crate::unicode::is_whitespace;

verus! {

/// `part` stands in `s` from position `i` on.
pub open spec fn occurs_at(s: Seq<char>, part: Seq<char>, i: int) -> bool {
    0 <= i && i + part.len() <= s.len() && s.subrange(i, i + part.len()) == part
}

/// `part` stands somewhere in `s`.
pub open spec fn has_part(s: Seq<char>, part: Seq<char>) -> bool {
    exists|i: int| occurs_at(s, part, i)
}

/// `s` begins with `part`.
pub open spec fn has_prefix(s: Seq<char>, part: Seq<char>) -> bool {
    occurs_at(s, part, 0)
}

/// `s` ends with `part`.
pub open spec fn has_suffix(s: Seq<char>, part: Seq<char>) -> bool {
    occurs_at(s, part, s.len() - part.len())
}

/// One of `parts` stands somewhere in `s`.
pub open spec fn has_any_part(s: Seq<char>, parts: Seq<Seq<char>>) -> bool {
    exists|k: int| 0 <= k < parts.len() && has_part(s, #[trigger] parts[k])
}

/// `s` ends with one of `parts`.
pub open spec fn has_any_suffix(s: Seq<char>, parts: Seq<Seq<char>>) -> bool {
    exists|k: int| 0 <= k < parts.len() && has_suffix(s, #[trigger] parts[k])
}

/// The texts of a list.
pub open spec fn texts(list: Seq<&str>) -> Seq<Seq<char>> {
    list.map_values(|t: &str| t@)
}

/// The text of an optional string slice.
pub open spec fn opt_str(o: Option<&str>) -> Option<Seq<char>> {
    match o {
        Some(t) => Some(t@),
        None => None,
    }
}

/// The text of an optional string.
pub open spec fn opt_string(o: Option<String>) -> Option<Seq<char>> {
    match o {
        Some(t) => Some(t@),
        None => None,
    }
}

/// A set of characters to look for or to trim away.
#[derive(Clone, Copy, Debug)]
pub enum CharClass {
    /// Unicode white space.
    White,
    /// One character.
    Only(char),
}

impl CharClass {
    /// The class holds `c`.
    pub open spec fn includes(self, c: char) -> bool {
        match self {
            CharClass::White => crate::unicode::white_space(c),
            CharClass::Only(d) => c == d,
        }
    }

    /// Whether the class holds `c`.
    pub fn test(self, c: char) -> (r: bool)
        ensures
            r == self.includes(c),
    {
        match self {
            CharClass::White => is_whitespace(c),
            CharClass::Only(d) => c == d,
        }
    }
}

/// `s` without the characters of `class` at its front.
pub open spec fn trim_front(s: Seq<char>, class: CharClass) -> Seq<char>
    decreases s.len(),
{
    if s.len() > 0 && class.includes(s[0]) {
        trim_front(s.drop_first(), class)
    } else {
        s
    }
}

/// `s` without the characters of `class` at its back.
pub open spec fn trim_back(s: Seq<char>, class: CharClass) -> Seq<char>
    decreases s.len(),
{
    if s.len() > 0 && class.includes(s.last()) {
        trim_back(s.drop_last(), class)
    } else {
        s
    }
}

/// `s` without the characters of `class` at either end.
pub open spec fn trim_both(s: Seq<char>, class: CharClass) -> Seq<char> {
    trim_back(trim_front(s, class), class)
}

/// `s` without the copies of `part` at its front.
pub open spec fn strip_copies(s: Seq<char>, part: Seq<char>) -> Seq<char>
    decreases s.len(),
{
    if part.len() > 0 && has_prefix(s, part) {
        strip_copies(s.skip(part.len() as int), part)
    } else {
        s
    }
}

/// The position of the first character of `class` in `s`, or the length of `s` if it has none.
pub open spec fn find_first(s: Seq<char>, class: CharClass) -> int
    decreases s.len(),
{
    if s.len() == 0 || class.includes(s[0]) {
        0
    } else {
        1 + find_first(s.drop_first(), class)
    }
}

/// The pieces of `s` between the characters `sep`.
pub open spec fn pieces(s: Seq<char>, sep: char) -> Seq<Seq<char>>
    decreases s.len(),
{
    if s.len() == 0 {
        seq![s]
    } else {
        let front = pieces(s.drop_last(), sep);
        if s.last() == sep {
            front.push(Seq::empty())
        } else {
            front.drop_last().push(front.last().push(s.last()))
        }
    }
}

/// What stands in `s` behind the last `sep`: the whole of `s` if it has none.
pub open spec fn behind_last(s: Seq<char>, sep: char) -> Seq<char>
    decreases s.len(),
{
    if s.len() == 0 {
        s
    } else if s.last() == sep {
        Seq::empty()
    } else {
        behind_last(s.drop_last(), sep).push(s.last())
    }
}

/// How many characters of `s` are `c`.
pub open spec fn count_of(s: Seq<char>, c: char) -> nat
    decreases s.len(),
{
    if s.len() == 0 {
        0
    } else {
        count_of(s.drop_last(), c) + if s.last() == c { 1nat } else { 0nat }
    }
}

/// `s` with every copy of `part` replaced, from the left and without overlap. An empty part stands
/// before and behind every character.
pub open spec fn replaced(s: Seq<char>, part: Seq<char>, by: Seq<char>) -> Seq<char>
    decreases s.len(),
{
    if part.len() == 0 {
        if s.len() == 0 {
            by
        } else {
            by + seq![s[0]] + replaced(s.drop_first(), part, by)
        }
    } else if s.len() == 0 {
        s
    } else if has_prefix(s, part) {
        by + replaced(s.skip(part.len() as int), part, by)
    } else {
        seq![s[0]] + replaced(s.drop_first(), part, by)
    }
}

/// `a` stands before `b`, or is `b`, in the order of texts by their characters.
pub open spec fn text_le(a: Seq<char>, b: Seq<char>) -> bool
    decreases a.len(),
{
    if a.len() == 0 {
        true
    } else if b.len() == 0 {
        false
    } else if a[0] != b[0] {
        a[0] < b[0]
    } else {
        text_le(a.drop_first(), b.drop_first())
    }
}

/// `n` copies of `c`.
pub open spec fn repeated(c: char, n: nat) -> Seq<char> {
    Seq::new(n, |i: int| c)
}

// ---- Facts --------------------------------------------------------------------------------

pub proof fn lemma_find_first(s: Seq<char>, class: CharClass)
    ensures
        0 <= find_first(s, class) <= s.len(),
        forall|j: int| 0 <= j < find_first(s, class) ==> !class.includes(#[trigger] s[j]),
        find_first(s, class) < s.len() ==> class.includes(s[find_first(s, class)]),
    decreases s.len(),
{
    if s.len() > 0 && !class.includes(s[0]) {
        lemma_find_first(s.drop_first(), class);
        assert forall|j: int| 0 <= j < find_first(s, class) implies !class.includes(
            #[trigger] s[j],
        ) by {
            if j > 0 {
                assert(s[j] == s.drop_first()[j - 1]);
            }
        }
    }
}

/// The position of the first character of a class is the only one with none of them before it.
pub proof fn lemma_find_first_is(s: Seq<char>, class: CharClass, i: int)
    requires
        0 <= i <= s.len(),
        forall|j: int| 0 <= j < i ==> !class.includes(#[trigger] s[j]),
        i < s.len() ==> class.includes(s[i]),
    ensures
        find_first(s, class) == i,
{
    lemma_find_first(s, class);
    let f = find_first(s, class);
    if f < i {
        assert(class.includes(s[f]));
    } else if i < f {
        assert(class.includes(s[i]));
    }
}

pub proof fn lemma_trim_front_is(s: Seq<char>, class: CharClass, i: int)
    requires
        0 <= i <= s.len(),
        forall|j: int| 0 <= j < i ==> class.includes(#[trigger] s[j]),
        i < s.len() ==> !class.includes(s[i]),
    ensures
        trim_front(s, class) == s.skip(i),
    decreases i,
{
    if i > 0 {
        assert(class.includes(s[0]));
        assert forall|j: int| 0 <= j < i - 1 implies class.includes(
            #[trigger] s.drop_first()[j],
        ) by {
            assert(class.includes(s[j + 1]));
        }
        lemma_trim_front_is(s.drop_first(), class, i - 1);
        assert(s.drop_first().skip(i - 1) =~= s.skip(i));
    } else {
        assert(s.skip(0) =~= s);
    }
}

pub proof fn lemma_trim_back_is(s: Seq<char>, class: CharClass, i: int)
    requires
        0 <= i <= s.len(),
        forall|j: int| i <= j < s.len() ==> class.includes(#[trigger] s[j]),
        i > 0 ==> !class.includes(s[i - 1]),
    ensures
        trim_back(s, class) == s.take(i),
    decreases s.len() - i,
{
    if i < s.len() {
        assert(class.includes(s[s.len() - 1]));
        lemma_trim_back_is(s.drop_last(), class, i);
        assert(s.drop_last().take(i) =~= s.take(i));
    } else {
        assert(s.take(i) =~= s);
    }
}

/// A text that has no character of the class at its ends stays as it is.
pub proof fn lemma_trim_keeps(s: Seq<char>, class: CharClass)
    requires
        s.len() > 0 ==> !class.includes(s[0]) && !class.includes(s.last()),
    ensures
        trim_front(s, class) == s,
        trim_back(s, class) == s,
        trim_both(s, class) == s,
{
}

pub proof fn lemma_behind_last_is(s: Seq<char>, sep: char, i: int)
    requires
        0 <= i <= s.len(),
        i > 0 ==> s[i - 1] == sep,
        forall|j: int| i <= j < s.len() ==> s[j] != sep,
    ensures
        behind_last(s, sep) == s.skip(i),
    decreases s.len() - i,
{
    if i < s.len() {
        assert(s[s.len() - 1] != sep);
        lemma_behind_last_is(s.drop_last(), sep, i);
        assert(s.drop_last().skip(i).push(s.last()) =~= s.skip(i));
    } else {
        assert(s.skip(i) =~= Seq::<char>::empty());
        if s.len() == 0 {
            assert(s =~= Seq::<char>::empty());
        }
    }
}

/// A text without the separator is the only piece.
pub proof fn lemma_one_piece(s: Seq<char>, sep: char)
    requires
        forall|i: int| 0 <= i < s.len() ==> s[i] != sep,
    ensures
        pieces(s, sep) == seq![s],
    decreases s.len(),
{
    if s.len() > 0 {
        assert forall|i: int| 0 <= i < s.drop_last().len() implies s.drop_last()[i] != sep by {
            assert(s[i] != sep);
        }
        lemma_one_piece(s.drop_last(), sep);
        assert(s.last() != sep);
        assert(s.drop_last().push(s.last()) =~= s);
        assert(pieces(s, sep) =~= seq![s]);
    }
}

/// No piece holds the separator.
pub proof fn lemma_pieces_lack(s: Seq<char>, sep: char)
    ensures
        pieces(s, sep).len() > 0,
        forall|k: int, i: int|
            #![trigger pieces(s, sep)[k][i]]
            0 <= k < pieces(s, sep).len() && 0 <= i < pieces(s, sep)[k].len() ==> pieces(
                s,
                sep,
            )[k][i] != sep,
    decreases s.len(),
{
    if s.len() > 0 {
        lemma_pieces_lack(s.drop_last(), sep);
        let front = pieces(s.drop_last(), sep);
        let all = pieces(s, sep);
        assert forall|k: int, i: int| 0 <= k < all.len() && 0 <= i < all[k].len() implies (
        #[trigger] all[k][i]) != sep by {
            if s.last() == sep {
                if k < front.len() {
                    assert(front[k][i] != sep);
                }
            } else if k < front.len() - 1 {
                assert(front[k][i] != sep);
            } else if i < front.last().len() {
                assert(front[front.len() - 1][i] != sep);
            }
        }
    }
}

/// The piece before the first separator comes first.
pub proof fn lemma_first_piece(a: Seq<char>, sep: char, b: Seq<char>)
    requires
        forall|i: int| 0 <= i < a.len() ==> a[i] != sep,
    ensures
        pieces(a + seq![sep] + b, sep) == seq![a] + pieces(b, sep),
    decreases b.len(),
{
    let s = a + seq![sep] + b;
    if b.len() == 0 {
        assert(s.drop_last() =~= a);
        lemma_one_piece(a, sep);
        assert(b =~= Seq::<char>::empty());
        assert(pieces(s, sep) =~= seq![a] + pieces(b, sep));
    } else {
        let front = b.drop_last();
        lemma_first_piece(a, sep, front);
        lemma_pieces_lack(front, sep);
        assert(s.drop_last() =~= a + seq![sep] + front);
        assert(s.last() == b.last());
        assert(pieces(s, sep) =~= seq![a] + pieces(b, sep));
    }
}

/// What stands behind a separator, or alone, and holds none is the last piece.
pub proof fn lemma_last_piece(before: Seq<char>, sep: char, last: Seq<char>)
    requires
        before.len() > 0 ==> before.last() == sep,
        !last.contains(sep),
    ensures
        pieces(before + last, sep).len() > 0,
        pieces(before + last, sep).last() == last,
    decreases last.len(),
{
    let s = before + last;
    if last.len() == 0 {
        assert(s =~= before);
        assert(last =~= Seq::<char>::empty());
    } else {
        let front = last.drop_last();
        assert forall|i: int| 0 <= i < front.len() implies front[i] != sep by {
            assert(last.contains(last[i]));
        }
        lemma_last_piece(before, sep, front);
        assert(s.drop_last() =~= before + front);
        assert(last.contains(last.last()));
        assert(front.push(last.last()) =~= last);
    }
}

/// The first two pieces begin the text, with the separator between them.
pub proof fn lemma_pieces_begin(s: Seq<char>, sep: char)
    ensures
        pieces(s, sep).len() == 1 ==> s == pieces(s, sep)[0],
        pieces(s, sep).len() >= 2 ==> {
            let n = pieces(s, sep)[0].len() as int;
            n < s.len() && s.take(n) == pieces(s, sep)[0] && s[n] == sep
        },
    decreases s.len(),
{
    if s.len() > 0 {
        let front = pieces(s.drop_last(), sep);
        lemma_pieces_begin(s.drop_last(), sep);
        lemma_pieces_lack(s.drop_last(), sep);
        if front.len() == 1 {
            if s.last() == sep {
                assert(s.take(front[0].len() as int) =~= front[0]);
            } else {
                assert(front.last() == front[0]);
                assert(front[0].push(s.last()) =~= s);
            }
        } else {
            let n = front[0].len() as int;
            assert(s.take(n) =~= s.drop_last().take(n));
        }
    }
}

/// What is left behind the copies does not begin with one.
pub proof fn lemma_strip_leaves(s: Seq<char>, part: Seq<char>)
    requires
        part.len() > 0,
    ensures
        !has_prefix(strip_copies(s, part), part),
    decreases s.len(),
{
    if has_prefix(s, part) {
        lemma_strip_leaves(s.skip(part.len() as int), part);
    }
}

/// What is trimmed at the back of a text goes no further than its last part.
pub proof fn lemma_trim_back_prefix(a: Seq<char>, b: Seq<char>, class: CharClass)
    requires
        a.len() > 0,
        !class.includes(a.last()),
    ensures
        trim_back(a + b, class) == a + trim_back(b, class),
    decreases b.len(),
{
    if b.len() == 0 {
        assert(a + b =~= a);
    } else if class.includes(b.last()) {
        lemma_trim_back_prefix(a, b.drop_last(), class);
        assert((a + b).drop_last() =~= a + b.drop_last());
        assert((a + b).last() == b.last());
    } else {
        assert((a + b).last() == b.last());
    }
}

/// What is left by trimming at the back begins the text and does not end with the class.
pub proof fn lemma_trim_back_kept(s: Seq<char>, class: CharClass)
    ensures
        trim_back(s, class).len() <= s.len(),
        trim_back(s, class) == s.take(trim_back(s, class).len() as int),
        trim_back(s, class).len() > 0 ==> !class.includes(trim_back(s, class).last()),
    decreases s.len(),
{
    if s.len() > 0 && class.includes(s.last()) {
        lemma_trim_back_kept(s.drop_last(), class);
        let n = trim_back(s, class).len() as int;
        assert(s.drop_last().take(n) =~= s.take(n));
    } else {
        assert(s.take(s.len() as int) =~= s);
    }
}

pub proof fn lemma_count_zero(s: Seq<char>, c: char)
    ensures
        count_of(s, c) == 0 <==> (forall|i: int| 0 <= i < s.len() ==> s[i] != c),
    decreases s.len(),
{
    if s.len() > 0 {
        lemma_count_zero(s.drop_last(), c);
        let d = s.drop_last();
        if forall|i: int| 0 <= i < s.len() ==> s[i] != c {
            assert(s.last() != c);
            assert forall|i: int| 0 <= i < d.len() implies d[i] != c by {
                assert(s[i] != c);
            }
        }
        if count_of(s, c) == 0 {
            assert forall|i: int| 0 <= i < s.len() implies s[i] != c by {
                if i < d.len() {
                    assert(d[i] != c);
                }
            }
        }
    }
}

pub proof fn lemma_count_concat(a: Seq<char>, b: Seq<char>, c: char)
    ensures
        count_of(a + b, c) == count_of(a, c) + count_of(b, c),
    decreases b.len(),
{
    if b.len() == 0 {
        assert(a + b =~= a);
    } else {
        lemma_count_concat(a, b.drop_last(), c);
        assert((a + b).drop_last() =~= a + b.drop_last());
        assert((a + b).last() == b.last());
    }
}

pub proof fn lemma_text_le_total(a: Seq<char>, b: Seq<char>)
    ensures
        text_le(a, b) || text_le(b, a),
    decreases a.len(),
{
    if a.len() > 0 && b.len() > 0 && a[0] == b[0] {
        lemma_text_le_total(a.drop_first(), b.drop_first());
    }
}

pub proof fn lemma_text_le_trans(a: Seq<char>, b: Seq<char>, c: Seq<char>)
    requires
        text_le(a, b),
        text_le(b, c),
    ensures
        text_le(a, c),
    decreases a.len(),
{
    if a.len() > 0 && b.len() > 0 && c.len() > 0 && a[0] == b[0] && b[0] == c[0] {
        lemma_text_le_trans(a.drop_first(), b.drop_first(), c.drop_first());
    }
}

// ---- Functions ------------------------------------------------------------------------------

/// The characters of a text.
pub fn chars_of(s: &str) -> (r: Vec<char>)
    ensures
        r@ == s@,
{
    let mut out: Vec<char> = Vec::new();
    for c in it: s.chars()
        invariant
            it.seq() == s@,
            out@ == s@.take(it.index() as int),
    {
        out.push(c);
    }
    out
}

/// Whether two texts are the same.
pub fn same_text(a: &str, b: &str) -> (r: bool)
    ensures
        r == (a@ == b@),
{
    let x = chars_of(a);
    let y = chars_of(b);
    if x.len() != y.len() {
        return false;
    }
    for i in 0..x.len()
        invariant
            x@ == a@,
            y@ == b@,
            x.len() == y.len(),
            forall|j: int| 0 <= j < i ==> x@[j] == y@[j],
    {
        if x[i] != y[i] {
            return false;
        }
    }
    assert(a@ =~= b@);
    true
}

/// Whether `part` stands in `s` from position `i` on.
pub fn part_at(s: &[char], part: &[char], i: usize) -> (r: bool)
    requires
        i <= s@.len(),
    ensures
        r == occurs_at(s@, part@, i as int),
{
    let room = s.len() - i;
    if part.len() > room {
        return false;
    }
    for j in 0..part.len()
        invariant
            room == s@.len() - i,
            i + room <= usize::MAX,
            part@.len() <= room,
            forall|k: int| 0 <= k < j ==> s@[i + k] == part@[k],
    {
        if s[i + j] != part[j] {
            assert(s@.subrange(i as int, i + part@.len())[j as int] != part@[j as int]);
            return false;
        }
    }
    assert(s@.subrange(i as int, i + part@.len()) =~= part@);
    true
}

/// Whether `part` stands somewhere in `s`.
pub fn contains(s: &str, part: &str) -> (r: bool)
    ensures
        r == has_part(s@, part@),
{
    let v = chars_of(s);
    let p = chars_of(part);
    if p.len() == 0 {
        assert(s@.subrange(0, 0) =~= part@);
        assert(occurs_at(s@, part@, 0));
        return true;
    }
    for i in 0..v.len()
        invariant
            v@ == s@,
            p@ == part@,
            p@.len() > 0,
            forall|j: int| 0 <= j < i ==> !occurs_at(s@, part@, j),
    {
        if part_at(v.as_slice(), p.as_slice(), i) {
            return true;
        }
    }
    false
}

/// Whether `s` begins with `part`.
pub fn starts_with(s: &str, part: &str) -> (r: bool)
    ensures
        r == has_prefix(s@, part@),
{
    let v = chars_of(s);
    let p = chars_of(part);
    part_at(v.as_slice(), p.as_slice(), 0)
}

/// Whether `s` ends with `part`.
pub fn ends_with(s: &str, part: &str) -> (r: bool)
    ensures
        r == has_suffix(s@, part@),
{
    let v = chars_of(s);
    let p = chars_of(part);
    if p.len() > v.len() {
        return false;
    }
    part_at(v.as_slice(), p.as_slice(), v.len() - p.len())
}

/// Whether one of `parts` stands somewhere in `s`.
pub fn contains_any(s: &str, parts: &[&str]) -> (r: bool)
    ensures
        r == has_any_part(s@, texts(parts@)),
{
    for k in 0..parts.len()
        invariant
            forall|j: int| 0 <= j < k ==> !has_part(s@, #[trigger] texts(parts@)[j]),
    {
        assert(texts(parts@)[k as int] == parts@[k as int]@);
        if contains(s, parts[k]) {
            return true;
        }
    }
    false
}

/// Whether `s` ends with one of `parts`.
pub fn ends_with_any(s: &str, parts: &[&str]) -> (r: bool)
    ensures
        r == has_any_suffix(s@, texts(parts@)),
{
    for k in 0..parts.len()
        invariant
            forall|j: int| 0 <= j < k ==> !has_suffix(s@, #[trigger] texts(parts@)[j]),
    {
        assert(texts(parts@)[k as int] == parts@[k as int]@);
        if ends_with(s, parts[k]) {
            return true;
        }
    }
    false
}

/// Whether `s` is one of `list`.
pub fn is_one_of(s: &str, list: &[&str]) -> (r: bool)
    ensures
        r == texts(list@).contains(s@),
{
    for k in 0..list.len()
        invariant
            forall|j: int| 0 <= j < k ==> (#[trigger] texts(list@)[j]) != s@,
    {
        assert(texts(list@)[k as int] == list@[k as int]@);
        if same_text(s, list[k]) {
            return true;
        }
    }
    false
}

/// The text without the characters of `class` at its front.
pub fn trim_start<'a>(s: &'a str, class: CharClass) -> (r: &'a str)
    ensures
        r@ == trim_front(s@, class),
{
    let v = chars_of(s);
    let mut i: usize = 0;
    while i < v.len() && class.test(v[i])
        invariant
            v@ == s@,
            0 <= i <= v@.len(),
            forall|j: int| 0 <= j < i ==> class.includes(#[trigger] v@[j]),
        decreases v@.len() - i,
    {
        i += 1;
    }
    proof {
        lemma_trim_front_is(s@, class, i as int);
        assert(s@.subrange(i as int, s@.len() as int) =~= s@.skip(i as int));
    }
    s.substring_char(i, v.len())
}

/// The text without the characters of `class` at its back.
pub fn trim_end<'a>(s: &'a str, class: CharClass) -> (r: &'a str)
    ensures
        r@ == trim_back(s@, class),
{
    let v = chars_of(s);
    let mut i: usize = v.len();
    while i > 0 && class.test(v[i - 1])
        invariant
            v@ == s@,
            0 <= i <= v@.len(),
            forall|j: int| i <= j < v@.len() ==> class.includes(#[trigger] v@[j]),
        decreases i,
    {
        i -= 1;
    }
    proof {
        lemma_trim_back_is(s@, class, i as int);
        assert(s@.subrange(0, i as int) =~= s@.take(i as int));
    }
    s.substring_char(0, i)
}

/// The text without the characters of `class` at either end.
pub fn trim<'a>(s: &'a str, class: CharClass) -> (r: &'a str)
    ensures
        r@ == trim_both(s@, class),
{
    trim_end(trim_start(s, class), class)
}

/// The text without the copies of `part` at its front.
pub fn trim_start_part<'a>(s: &'a str, part: &str) -> (r: &'a str)
    ensures
        r@ == strip_copies(s@, part@),
{
    let v = chars_of(s);
    let p = chars_of(part);
    if p.len() == 0 {
        return s;
    }
    let mut i: usize = 0;
    proof {
        assert(s@.skip(0) =~= s@);
    }
    while part_at(v.as_slice(), p.as_slice(), i)
        invariant
            v@ == s@,
            p@ == part@,
            p@.len() > 0,
            0 <= i <= v@.len(),
            strip_copies(s@, part@) == strip_copies(s@.skip(i as int), part@),
        decreases v@.len() - i,
    {
        proof {
            lemma_occurs_skip(s@, part@, i as int);
            assert(s@.skip(i as int).skip(p@.len() as int) =~= s@.skip(i + p@.len()));
            assert(i + p@.len() <= v.len());
        }
        i += p.len();
    }
    proof {
        lemma_occurs_skip(s@, part@, i as int);
        assert(s@.subrange(i as int, s@.len() as int) =~= s@.skip(i as int));
    }
    s.substring_char(i, v.len())
}

/// A part that stands at a position begins the rest from there.
pub proof fn lemma_occurs_skip(s: Seq<char>, part: Seq<char>, i: int)
    requires
        0 <= i <= s.len(),
    ensures
        occurs_at(s, part, i) == has_prefix(s.skip(i), part),
{
    if i + part.len() <= s.len() {
        assert(s.skip(i).subrange(0, part.len() as int) =~= s.subrange(i, i + part.len()));
    }
}

/// The position of the first character of `class` in `v` at `from` or behind it, or the length.
pub fn find_from(v: &[char], from: usize, class: CharClass) -> (r: usize)
    requires
        from <= v@.len(),
    ensures
        from <= r <= v@.len(),
        r == from + find_first(v@.skip(from as int), class),
{
    let mut i: usize = from;
    while i < v.len() && !class.test(v[i])
        invariant
            from <= i <= v@.len(),
            forall|j: int| from <= j < i ==> !class.includes(#[trigger] v@[j]),
        decreases v@.len() - i,
    {
        i += 1;
    }
    proof {
        let rest = v@.skip(from as int);
        assert forall|j: int| 0 <= j < i - from implies !class.includes(#[trigger] rest[j]) by {
            assert(!class.includes(v@[j + from]));
        }
        lemma_find_first_is(rest, class, i - from);
    }
    i
}

/// The pieces of the text between the characters `sep`.
pub fn split(s: &str, sep: char) -> (r: Vec<String>)
    ensures
        r@.map_values(|t: String| t@) == pieces(s@, sep),
{
    let v = chars_of(s);
    let mut out: Vec<String> = Vec::new();
    let mut piece = String::new();
    proof {
        assert(out@.map_values(|t: String| t@).push(piece@) =~= seq![Seq::<char>::empty()]);
        assert(s@.take(0) =~= Seq::<char>::empty());
    }
    for i in 0..v.len()
        invariant
            v@ == s@,
            out@.map_values(|t: String| t@).push(piece@) == pieces(s@.take(i as int), sep),
    {
        let ghost before = out@.map_values(|t: String| t@);
        let ghost old_piece = piece@;
        proof {
            assert(s@.take(i + 1).drop_last() =~= s@.take(i as int));
            assert(before.push(old_piece).last() == old_piece);
            assert(before.push(old_piece).drop_last() =~= before);
        }
        if v[i] == sep {
            out.push(piece);
            piece = String::new();
            proof {
                assert(out@.map_values(|t: String| t@) =~= before.push(old_piece));
            }
        } else {
            piece.push(v[i]);
        }
    }
    let ghost before = out@.map_values(|t: String| t@);
    out.push(piece);
    proof {
        assert(out@.map_values(|t: String| t@) =~= before.push(piece@));
        assert(s@.take(s@.len() as int) =~= s@);
    }
    out
}

/// What stands behind the last `sep`: the whole text if it has none.
pub fn after_last<'a>(s: &'a str, sep: char) -> (r: &'a str)
    ensures
        r@ == behind_last(s@, sep),
{
    let v = chars_of(s);
    let mut i: usize = v.len();
    while i > 0 && v[i - 1] != sep
        invariant
            v@ == s@,
            0 <= i <= v@.len(),
            forall|j: int| i <= j < v@.len() ==> v@[j] != sep,
        decreases i,
    {
        i -= 1;
    }
    proof {
        lemma_behind_last_is(s@, sep, i as int);
        assert(s@.subrange(i as int, s@.len() as int) =~= s@.skip(i as int));
    }
    s.substring_char(i, v.len())
}

/// How many characters of the text are `c`.
pub fn count(s: &str, c: char) -> (r: usize)
    ensures
        r == count_of(s@, c),
{
    let v = chars_of(s);
    let mut n: usize = 0;
    for i in 0..v.len()
        invariant
            v@ == s@,
            n <= i,
            n == count_of(s@.take(i as int), c),
    {
        proof {
            assert(s@.take(i + 1).drop_last() =~= s@.take(i as int));
        }
        if v[i] == c {
            n += 1;
        }
    }
    proof {
        assert(s@.take(s@.len() as int) =~= s@);
    }
    n
}

/// The text with every copy of `part` replaced by `by`, from the left and without overlap.
pub fn replace(s: &str, part: &str, by: &str) -> (r: String)
    ensures
        r@ == replaced(s@, part@, by@),
{
    let v = chars_of(s);
    let p = chars_of(part);
    let mut out = String::new();
    let mut i: usize = 0;
    proof {
        assert(s@.skip(0) =~= s@);
        assert(out@ + replaced(s@, part@, by@) =~= replaced(s@, part@, by@));
    }
    while i < v.len()
        invariant
            v@ == s@,
            p@ == part@,
            i <= v@.len(),
            out@ + replaced(s@.skip(i as int), part@, by@) == replaced(s@, part@, by@),
        decreases v@.len() - i,
    {
        let ghost before = out@;
        let ghost rest = s@.skip(i as int);
        let found = part_at(v.as_slice(), p.as_slice(), i);
        proof {
            lemma_occurs_skip(s@, part@, i as int);
        }
        if p.len() == 0 {
            out.append(by);
            out.push(v[i]);
            i += 1;
            proof {
                assert(rest.drop_first() =~= s@.skip(i as int));
                assert(out@ + replaced(rest.drop_first(), part@, by@) =~= before + (by@
                    + seq![rest[0]] + replaced(rest.drop_first(), part@, by@)));
            }
        } else if found {
            out.append(by);
            i += p.len();
            proof {
                assert(rest.skip(p@.len() as int) =~= s@.skip(i as int));
                assert(out@ + replaced(rest.skip(p@.len() as int), part@, by@) =~= before + (by@
                    + replaced(rest.skip(p@.len() as int), part@, by@)));
            }
        } else {
            out.push(v[i]);
            i += 1;
            proof {
                assert(rest.drop_first() =~= s@.skip(i as int));
                assert(out@ + replaced(rest.drop_first(), part@, by@) =~= before + (seq![rest[0]]
                    + replaced(rest.drop_first(), part@, by@)));
            }
        }
    }
    proof {
        assert(s@.skip(s@.len() as int).len() == 0);
    }
    if p.len() == 0 {
        out.append(by);
    } else {
        proof {
            assert(out@ + replaced(s@.skip(i as int), part@, by@) =~= out@);
        }
    }
    out
}

/// Whether `a` stands before `b`, or is `b`, in the order of texts.
pub fn not_after(a: &str, b: &str) -> (r: bool)
    ensures
        r == text_le(a@, b@),
{
    let x = chars_of(a);
    let y = chars_of(b);
    let mut i: usize = 0;
    proof {
        assert(a@.skip(0) =~= a@);
        assert(b@.skip(0) =~= b@);
    }
    while i < x.len() && i < y.len()
        invariant
            x@ == a@,
            y@ == b@,
            i <= x@.len(),
            i <= y@.len(),
            text_le(a@, b@) == text_le(a@.skip(i as int), b@.skip(i as int)),
        decreases x@.len() - i,
    {
        proof {
            assert(a@.skip(i as int).drop_first() =~= a@.skip(i + 1));
            assert(b@.skip(i as int).drop_first() =~= b@.skip(i + 1));
        }
        if x[i] != y[i] {
            return x[i] < y[i];
        }
        i += 1;
    }
    i == x.len()
}

/// The text, padded with spaces at its back to `width` characters.
pub open spec fn padded(s: Seq<char>, width: nat) -> Seq<char> {
    s + repeated(' ', if width > s.len() { (width - s.len()) as nat } else { 0 })
}

/// The text, padded with spaces at its back to `width` characters.
pub fn pad_right(s: &str, width: usize) -> (r: String)
    ensures
        r@ == padded(s@, width as nat),
{
    let mut out = s.to_owned();
    let have = s.unicode_len();
    let mut n: usize = have;
    while n < width
        invariant
            have == s@.len(),
            have <= n,
            n <= width || n == have,
            out@ == s@ + repeated(' ', (n - have) as nat),
        decreases width - n,
    {
        out.push(' ');
        n += 1;
        assert(out@ =~= s@ + repeated(' ', (n - have) as nat));
    }
    out
}

} // verus!
