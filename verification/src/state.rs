//! The tools that are installed, and where and in which version.

use vstd::prelude::*;

use indexmap::IndexMap;

use crate::error::GhrError;
use crate::github::types::Timestamp;
use crate::paths;
use crate::text;

verus! {

// ---- The map that keeps the order of its entries ---------------------------------------------

/// The map from keys to values of the crate `indexmap`.
#[verifier::external_type_specification]
#[verifier::external_body]
#[verifier::reject_recursive_types(K)]
#[verifier::reject_recursive_types(V)]
#[verifier::reject_recursive_types(S)]
pub struct ExIndexMap<K, V, S>(indexmap::IndexMap<K, V, S>);

/// The keys and values of a map, in the order in which the map holds them.
pub uninterp spec fn tools_in(map: IndexMap<String, ToolEntry>) -> Seq<(Seq<char>, ToolEntry)>;

/// The position of the first pair with this key, or the length if no pair has it.
pub open spec fn key_position(pairs: Seq<(Seq<char>, ToolEntry)>, key: Seq<char>) -> int
    decreases pairs.len(),
{
    if pairs.len() == 0 || pairs[0].0 == key {
        0
    } else {
        1 + key_position(pairs.drop_first(), key)
    }
}

/// One of the pairs has this key.
pub open spec fn holds_key(pairs: Seq<(Seq<char>, ToolEntry)>, key: Seq<char>) -> bool {
    key_position(pairs, key) < pairs.len()
}

/// The value behind a key.
pub open spec fn looked_up(pairs: Seq<(Seq<char>, ToolEntry)>, key: Seq<char>) -> Option<
    ToolEntry,
> {
    if holds_key(pairs, key) {
        Some(pairs[key_position(pairs, key)].1)
    } else {
        None
    }
}

/// The pairs with a value put behind a key: in place of the value that was there, or at the end.
pub open spec fn inserted(
    pairs: Seq<(Seq<char>, ToolEntry)>,
    key: Seq<char>,
    value: ToolEntry,
) -> Seq<(Seq<char>, ToolEntry)> {
    if holds_key(pairs, key) {
        pairs.update(key_position(pairs, key), (key, value))
    } else {
        pairs.push((key, value))
    }
}

/// The pairs without the one of a key, the others in their order.
pub open spec fn without(pairs: Seq<(Seq<char>, ToolEntry)>, key: Seq<char>) -> Seq<
    (Seq<char>, ToolEntry),
> {
    if holds_key(pairs, key) {
        pairs.remove(key_position(pairs, key))
    } else {
        pairs
    }
}

/// The value that an optional reference refers to.
pub open spec fn opt_entry(o: Option<&ToolEntry>) -> Option<ToolEntry> {
    match o {
        Some(e) => Some(*e),
        None => None,
    }
}

/// Calls `IndexMap::new`, which makes a map without pairs.
#[verifier::external_body]
fn map_new() -> (r: IndexMap<String, ToolEntry>)
    ensures
        tools_in(r) == Seq::<(Seq<char>, ToolEntry)>::empty(),
{
    IndexMap::new()
}

/// Calls `IndexMap::len`, which gives the number of pairs.
#[verifier::external_body]
fn map_len(map: &IndexMap<String, ToolEntry>) -> (r: usize)
    ensures
        r == tools_in(*map).len(),
{
    map.len()
}

/// Calls `IndexMap::get`, which gives the value behind a key.
#[verifier::external_body]
fn map_get<'a>(map: &'a IndexMap<String, ToolEntry>, key: &str) -> (r: Option<&'a ToolEntry>)
    ensures
        opt_entry(r) == looked_up(tools_in(*map), key@),
{
    map.get(key)
}

/// Calls `IndexMap::contains_key`, which tells whether a pair has the key.
#[verifier::external_body]
fn map_contains_key(map: &IndexMap<String, ToolEntry>, key: &str) -> (r: bool)
    ensures
        r == holds_key(tools_in(*map), key@),
{
    map.contains_key(key)
}

/// Calls `IndexMap::get_mut`, which gives access to the value behind a key. What is written there
/// becomes the value of that key; the other pairs and the order stay.
#[verifier::external_body]
fn map_get_mut<'a>(map: &'a mut IndexMap<String, ToolEntry>, key: &str) -> (r: Option<
    &'a mut ToolEntry,
>)
    ensures
        r is Some <==> holds_key(tools_in(*old(map)), key@),
        r matches Some(e) ==> Some(*e) == looked_up(tools_in(*old(map)), key@) && tools_in(
            *final(map),
        ) == inserted(tools_in(*old(map)), key@, *final(e)),
        r is None ==> tools_in(*final(map)) == tools_in(*old(map)),
{
    map.get_mut(key)
}

/// Calls `IndexMap::insert`. It puts the value in the place of the one behind the same key, or at
/// the end, and gives back the value that it took the place of.
#[verifier::external_body]
fn map_insert(map: &mut IndexMap<String, ToolEntry>, key: String, value: ToolEntry) -> (r: Option<
    ToolEntry,
>)
    ensures
        tools_in(*final(map)) == inserted(tools_in(*old(map)), key@, value),
        r == looked_up(tools_in(*old(map)), key@),
{
    map.insert(key, value)
}

/// Calls `IndexMap::shift_remove`. It takes out the pair of the key, gives back its value, and
/// leaves the other pairs in their order.
#[verifier::external_body]
fn map_shift_remove(map: &mut IndexMap<String, ToolEntry>, key: &str) -> (r: Option<ToolEntry>)
    ensures
        tools_in(*final(map)) == without(tools_in(*old(map)), key@),
        r == looked_up(tools_in(*old(map)), key@),
{
    map.shift_remove(key)
}

/// Calls `IndexMap::get_index`, which gives the key and the value at a position.
#[verifier::external_body]
fn map_get_index<'a>(map: &'a IndexMap<String, ToolEntry>, index: usize) -> (r: Option<
    (&'a String, &'a ToolEntry),
>)
    ensures
        r is Some <==> index < tools_in(*map).len(),
        r matches Some(p) ==> (p.0@, *p.1) == tools_in(*map)[index as int],
{
    map.get_index(index)
}

// ---- Tools ------------------------------------------------------------------------------------

/// A tool that is installed.
#[derive(Debug)]
pub struct ToolEntry {
    pub repo: String,
    pub installed_tag: String,
    pub install_path: String,
    pub binary_name: String,
    pub asset_pattern: String,
    pub installed_sha256: Option<String>,
    pub etag: Option<String>,
    pub last_checked: Option<Timestamp>,
    pub published_at: Option<Timestamp>,
}

/// A copy of an optional text.
pub fn copy_opt(o: &Option<String>) -> (r: Option<String>)
    ensures
        r == *o,
{
    match o {
        Some(s) => Some(s.clone()),
        None => None,
    }
}

impl Clone for ToolEntry {
    fn clone(&self) -> (r: Self)
        ensures
            r == *self,
    {
        ToolEntry {
            repo: self.repo.clone(),
            installed_tag: self.installed_tag.clone(),
            install_path: self.install_path.clone(),
            binary_name: self.binary_name.clone(),
            asset_pattern: self.asset_pattern.clone(),
            installed_sha256: copy_opt(&self.installed_sha256),
            etag: copy_opt(&self.etag),
            last_checked: self.last_checked,
            published_at: self.published_at,
        }
    }
}

/// A release of that moment is newer than what is installed. A tool whose moment is not known is
/// behind every release.
pub open spec fn behind(entry: ToolEntry, latest_published: Timestamp) -> bool {
    match entry.published_at {
        Some(installed) => crate::github::types::later(latest_published, installed),
        None => true,
    }
}

/// The directory to install the tool into: where it is, or the fallback if that has no parent.
pub open spec fn dir_of(entry: ToolEntry, fallback: Seq<char>) -> Seq<char> {
    match paths::parent_of(entry.install_path@) {
        Some(dir) => dir,
        None => fallback,
    }
}

impl ToolEntry {
    /// Whether a release published at `latest_published` is newer than what is installed. A missing
    /// timestamp of what is installed counts as older than any.
    pub fn is_behind(&self, latest_published: Timestamp) -> (r: bool)
        ensures
            r == behind(*self, latest_published),
    {
        match self.published_at {
            Some(installed) => latest_published.is_after(installed),
            None => true,
        }
    }

    /// The directory to install the binary into again: the parent of the path it is installed at,
    /// or `fallback` if there is none. A tool that was adopted stays where it lives.
    pub fn install_dir<'a>(&'a self, fallback: &'a str) -> (r: &'a str)
        ensures
            r@ == dir_of(*self, fallback@),
    {
        match paths::parent(self.install_path.as_str()) {
            Some(dir) => dir,
            None => fallback,
        }
    }

    /// The tool with another cached ETag.
    pub fn with_etag(self, etag: Option<String>) -> (r: Self)
        ensures
            r == (ToolEntry { etag, ..self }),
    {
        let mut out = self;
        out.etag = etag;
        out
    }
}

// ---- State --------------------------------------------------------------------------------------

/// The tools that are installed, by name, in the order in which they came.
pub struct State {
    pub tools: IndexMap<String, ToolEntry>,
}

impl State {
    /// The names and the tools, in order.
    pub open spec fn pairs(self) -> Seq<(Seq<char>, ToolEntry)> {
        tools_in(self.tools)
    }
}

/// No two pairs have the same key.
pub open spec fn distinct_keys(pairs: Seq<(Seq<char>, ToolEntry)>) -> bool {
    forall|i: int, j: int|
        0 <= i < j < pairs.len() ==> (#[trigger] pairs[i]).0 != (#[trigger] pairs[j]).0
}

/// Every key is the name of its tool's binary.
pub open spec fn keyed_by_name(pairs: Seq<(Seq<char>, ToolEntry)>) -> bool {
    forall|i: int| 0 <= i < pairs.len() ==> (#[trigger] pairs[i]).0 == pairs[i].1.binary_name@
}

/// One of the tools comes from this repository.
pub open spec fn has_repo(pairs: Seq<(Seq<char>, ToolEntry)>, repo: Seq<char>) -> bool {
    exists|i: int| 0 <= i < pairs.len() && (#[trigger] pairs[i]).1.repo@ == repo
}

/// The tool with the moment at which it was checked.
pub open spec fn checked_at(entry: ToolEntry, now: Timestamp) -> ToolEntry {
    ToolEntry { last_checked: Some(now), ..entry }
}

/// The pairs after the tool of a name was checked.
pub open spec fn touched(
    pairs: Seq<(Seq<char>, ToolEntry)>,
    name: Seq<char>,
    now: Timestamp,
) -> Seq<(Seq<char>, ToolEntry)> {
    match looked_up(pairs, name) {
        Some(e) => inserted(pairs, name, checked_at(e, now)),
        None => pairs,
    }
}

impl Default for State {
    /// A state without tools.
    fn default() -> (r: Self)
        ensures
            r.pairs() == Seq::<(Seq<char>, ToolEntry)>::empty(),
    {
        State { tools: map_new() }
    }
}

impl State {
    /// The file that keeps the state: below the data directory of the user, or below
    /// `.local/share` in the home directory if that is not known.
    pub fn state_path(data_dir: Option<&str>, home: Option<&str>) -> (r: String)
        ensures
            r@ == paths::joined(
                paths::user_dir(text::opt_str(data_dir), text::opt_str(home), ".local/share"@),
                "ghr/state.toml"@,
            ),
    {
        let base = paths::user_dir_of(data_dir, home, ".local/share");
        paths::join(base.as_str(), "ghr/state.toml")
    }

    /// Whether no tool is installed.
    pub fn is_empty(&self) -> (r: bool)
        ensures
            r == (self.pairs().len() == 0),
    {
        map_len(&self.tools) == 0
    }

    /// The tool of this name.
    pub fn get(&self, name: &str) -> (r: Option<&ToolEntry>)
        ensures
            opt_entry(r) == looked_up(self.pairs(), name@),
    {
        map_get(&self.tools, name)
    }

    /// Whether a tool of this name is installed.
    pub fn contains(&self, name: &str) -> (r: bool)
        ensures
            r == holds_key(self.pairs(), name@),
    {
        map_contains_key(&self.tools, name)
    }

    /// Whether a tool from this repository is installed.
    pub fn contains_repo(&self, repo: &str) -> (r: bool)
        ensures
            r == has_repo(self.pairs(), repo@),
    {
        let n = map_len(&self.tools);
        for i in 0..n
            invariant
                n == self.pairs().len(),
                forall|j: int| 0 <= j < i ==> (#[trigger] self.pairs()[j]).1.repo@ != repo@,
        {
            if let Some((_, e)) = map_get_index(&self.tools, i) {
                assert(*e == self.pairs()[i as int].1);
                if text::same_text(e.repo.as_str(), repo) {
                    return true;
                }
            }
        }
        false
    }

    /// The tool of this name, or an error if it is not managed.
    pub fn require(&self, name: &str) -> (r: Result<&ToolEntry, GhrError>)
        ensures
            match (looked_up(self.pairs(), name@)) {
                Some(e) => r matches Ok(t) && *t == e,
                None => r matches Err(GhrError::UnknownTool { name: n }) && n@ == name@,
            },
    {
        match map_get(&self.tools, name) {
            Some(e) => Ok(e),
            None => Err(GhrError::UnknownTool { name: name.to_owned() }),
        }
    }

    /// Insert a tool, or put it in the place of the one of the same name. The key is always the
    /// name of its binary.
    pub fn upsert(&mut self, entry: ToolEntry)
        ensures
            final(self).pairs() == inserted(old(self).pairs(), entry.binary_name@, entry),
    {
        let key = entry.binary_name.clone();
        let _ = map_insert(&mut self.tools, key, entry);
    }

    /// Note that the tool of this name was checked now. Nothing changes if there is none.
    pub fn touch_checked(&mut self, name: &str, now: Timestamp)
        ensures
            final(self).pairs() == touched(old(self).pairs(), name@, now),
    {
        if let Some(e) = map_get_mut(&mut self.tools, name) {
            e.last_checked = Some(now);
        }
    }

    /// Take the tool of this name out.
    pub fn remove(&mut self, name: &str) -> (r: Option<ToolEntry>)
        ensures
            final(self).pairs() == without(old(self).pairs(), name@),
            r == looked_up(old(self).pairs(), name@),
    {
        map_shift_remove(&mut self.tools, name)
    }

    /// The names and the tools, in order.
    pub fn iter(&self) -> (r: Vec<(&String, &ToolEntry)>)
        ensures
            r@.len() == self.pairs().len(),
            forall|i: int|
                0 <= i < r@.len() ==> ((#[trigger] r@[i]).0@, *r@[i].1) == self.pairs()[i],
    {
        let n = map_len(&self.tools);
        let mut out: Vec<(&String, &ToolEntry)> = Vec::new();
        for i in 0..n
            invariant
                n == self.pairs().len(),
                out@.len() == i,
                forall|j: int|
                    0 <= j < i ==> ((#[trigger] out@[j]).0@, *out@[j].1) == self.pairs()[j],
        {
            if let Some(p) = map_get_index(&self.tools, i) {
                out.push(p);
            }
        }
        out
    }
}

// ---- Laws ---------------------------------------------------------------------------------------

pub proof fn lemma_key_position(pairs: Seq<(Seq<char>, ToolEntry)>, key: Seq<char>)
    ensures
        0 <= key_position(pairs, key) <= pairs.len(),
        forall|j: int| 0 <= j < key_position(pairs, key) ==> (#[trigger] pairs[j]).0 != key,
        holds_key(pairs, key) ==> pairs[key_position(pairs, key)].0 == key,
    decreases pairs.len(),
{
    if pairs.len() > 0 && pairs[0].0 != key {
        lemma_key_position(pairs.drop_first(), key);
        assert forall|j: int| 0 <= j < key_position(pairs, key) implies (#[trigger] pairs[j]).0
            != key by {
            if j > 0 {
                assert(pairs[j] == pairs.drop_first()[j - 1]);
            }
        }
    }
}

proof fn lemma_key_position_is(pairs: Seq<(Seq<char>, ToolEntry)>, key: Seq<char>, i: int)
    requires
        0 <= i <= pairs.len(),
        forall|j: int| 0 <= j < i ==> (#[trigger] pairs[j]).0 != key,
        i < pairs.len() ==> pairs[i].0 == key,
    ensures
        key_position(pairs, key) == i,
{
    lemma_key_position(pairs, key);
    let p = key_position(pairs, key);
    if p < i {
        assert(pairs[p].0 != key);
    } else if i < p {
        assert(pairs[i].0 != key);
    }
}

/// A tool that was put in is found under its name, and the tools of other names are found as
/// before.
pub proof fn law_upserted_is_found(
    pairs: Seq<(Seq<char>, ToolEntry)>,
    key: Seq<char>,
    value: ToolEntry,
    other: Seq<char>,
)
    ensures
        looked_up(inserted(pairs, key, value), key) == Some(value),
        other != key ==> looked_up(inserted(pairs, key, value), other) == looked_up(pairs, other),
{
    lemma_key_position(pairs, key);
    lemma_key_position(pairs, other);
    let next = inserted(pairs, key, value);
    let p = key_position(pairs, key);
    lemma_key_position_is(next, key, p);
    if other != key {
        let q = key_position(pairs, other);
        if q < pairs.len() {
            lemma_key_position_is(next, other, q);
        } else {
            lemma_key_position_is(next, other, next.len() as int);
        }
    }
}

/// Putting a tool in keeps the order of the names that were there, and a new name comes last.
pub proof fn law_upsert_keeps_the_order(
    pairs: Seq<(Seq<char>, ToolEntry)>,
    key: Seq<char>,
    value: ToolEntry,
)
    ensures
        ({
            let keys = pairs.map_values(|p: (Seq<char>, ToolEntry)| p.0);
            inserted(pairs, key, value).map_values(|p: (Seq<char>, ToolEntry)| p.0)
                == if holds_key(pairs, key) {
                keys
            } else {
                keys.push(key)
            }
        }),
{
    lemma_key_position(pairs, key);
    let keys = pairs.map_values(|p: (Seq<char>, ToolEntry)| p.0);
    let next = inserted(pairs, key, value).map_values(|p: (Seq<char>, ToolEntry)| p.0);
    if holds_key(pairs, key) {
        assert(next =~= keys);
    } else {
        assert(next =~= keys.push(key));
    }
}

/// A tool that was taken out is not found any more, and the others are found as before, in their
/// order.
pub proof fn law_removed_is_gone(
    pairs: Seq<(Seq<char>, ToolEntry)>,
    key: Seq<char>,
    other: Seq<char>,
)
    requires
        distinct_keys(pairs),
    ensures
        looked_up(without(pairs, key), key) is None,
        other != key ==> looked_up(without(pairs, key), other) == looked_up(pairs, other),
{
    lemma_key_position(pairs, key);
    lemma_key_position(pairs, other);
    let next = without(pairs, key);
    let p = key_position(pairs, key);
    lemma_key_position(next, key);
    if holds_key(next, key) {
        let q = key_position(next, key);
        assert(holds_key(pairs, key));
        if q < p {
            assert(pairs[q].0 == key);
        } else {
            assert(next[q] == pairs[q + 1]);
            assert(pairs[p].0 != pairs[q + 1].0);
        }
    }
    if other != key && holds_key(pairs, key) {
        let q = key_position(pairs, other);
        if q >= pairs.len() {
            assert forall|j: int| 0 <= j < next.len() implies (#[trigger] next[j]).0 != other by {
                assert(next[j] == if j < p { pairs[j] } else { pairs[j + 1] });
            }
            lemma_key_position_is(next, other, next.len() as int);
        } else {
            let t = if q < p {
                q
            } else {
                q - 1
            };
            assert forall|j: int| 0 <= j < t implies (#[trigger] next[j]).0 != other by {
                assert(next[j] == if j < p { pairs[j] } else { pairs[j + 1] });
            }
            lemma_key_position_is(next, other, t);
        }
    }
}

/// Checking a tool changes nothing but the moment at which it was checked.
pub proof fn law_checking_changes_only_the_moment(
    pairs: Seq<(Seq<char>, ToolEntry)>,
    name: Seq<char>,
    now: Timestamp,
    i: int,
)
    requires
        0 <= i < pairs.len(),
    ensures
        touched(pairs, name, now).len() == pairs.len(),
        touched(pairs, name, now)[i] == pairs[i] || touched(pairs, name, now)[i] == (
            pairs[i].0,
            checked_at(pairs[i].1, now),
        ),
        pairs[i].0 != name ==> touched(pairs, name, now)[i] == pairs[i],
{
    lemma_key_position(pairs, name);
}

/// No operation gives two tools the same key.
pub proof fn law_keys_stay_distinct(
    pairs: Seq<(Seq<char>, ToolEntry)>,
    key: Seq<char>,
    value: ToolEntry,
    now: Timestamp,
)
    requires
        distinct_keys(pairs),
    ensures
        distinct_keys(inserted(pairs, key, value)),
        distinct_keys(without(pairs, key)),
        distinct_keys(touched(pairs, key, now)),
{
    lemma_key_position(pairs, key);
    let next = inserted(pairs, key, value);
    assert(distinct_keys(next)) by {
        assert forall|i: int, j: int| 0 <= i < j < next.len() implies (#[trigger] next[i]).0 != (
        #[trigger] next[j]).0 by {
            if j < pairs.len() {
                assert(pairs[i].0 != pairs[j].0);
            }
        }
    }
    let less = without(pairs, key);
    let p = key_position(pairs, key);
    assert(distinct_keys(less)) by {
        assert forall|i: int, j: int| 0 <= i < j < less.len() implies (#[trigger] less[i]).0 != (
        #[trigger] less[j]).0 by {
            if holds_key(pairs, key) {
                assert(less[i] == if i < p { pairs[i] } else { pairs[i + 1] });
                assert(less[j] == if j < p { pairs[j] } else { pairs[j + 1] });
            }
        }
    }
    let same = touched(pairs, key, now);
    assert(distinct_keys(same)) by {
        assert forall|i: int, j: int| 0 <= i < j < same.len() implies (#[trigger] same[i]).0 != (
        #[trigger] same[j]).0 by {
            assert(pairs[i].0 != pairs[j].0);
        }
    }
}

/// The key of a tool and the name of its binary never drift apart.
pub proof fn law_keys_stay_the_names(
    pairs: Seq<(Seq<char>, ToolEntry)>,
    name: Seq<char>,
    entry: ToolEntry,
    now: Timestamp,
)
    requires
        keyed_by_name(pairs),
    ensures
        keyed_by_name(inserted(pairs, entry.binary_name@, entry)),
        keyed_by_name(without(pairs, name)),
        keyed_by_name(touched(pairs, name, now)),
{
    lemma_key_position(pairs, name);
    lemma_key_position(pairs, entry.binary_name@);
    let less = without(pairs, name);
    let p = key_position(pairs, name);
    assert(keyed_by_name(less)) by {
        assert forall|i: int| 0 <= i < less.len() implies (#[trigger] less[i]).0
            == less[i].1.binary_name@ by {
            if holds_key(pairs, name) {
                assert(less[i] == if i < p { pairs[i] } else { pairs[i + 1] });
            }
        }
    }
    let same = touched(pairs, name, now);
    assert(keyed_by_name(same)) by {
        assert forall|i: int| 0 <= i < same.len() implies (#[trigger] same[i]).0
            == same[i].1.binary_name@ by {
            assert(pairs[i].0 == pairs[i].1.binary_name@);
        }
    }
}

} // verus!
