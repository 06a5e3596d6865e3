//! The decisions and texts behind the collection and categorization pages:
//! full collection titles (a title preceded by the titles of its ancestors,
//! each followed by ` -> `), page filling, and the entry that categorizing
//! a video stores.
use vstd::prelude::*;

use std::collections::HashMap;

use crate::collection_id::CollectionId;
use crate::text::{
    char_views, chars_of, concat_all, concat_strings, free_of, lemma_replace_single,
    lemma_split_append, lemma_split_free, lemma_split_nonempty, lemma_split_three,
    lemma_split_two, parse_u32, parse_unsigned, push_str, replace, replace_all, split,
    split_chars, string_of,
};
use crate::video_collection::VideoCollection;
use crate::video_entry::{VideoEntry, VideoEntryView};
use crate::video_id::VideoId;

verus! {

broadcast use vstd::std_specs::hash::group_hash_axioms;

/// The separator between a parent's title and a child's title.
pub open spec fn arrow() -> Seq<char> {
    seq![' ', '-', '>', ' ']
}

/// Whether following parents from `key` leaves the map, or reaches a root,
/// within `fuel` steps.
pub open spec fn chain_ends(m: Map<u32, VideoCollection>, key: u32, fuel: nat) -> bool
    decreases fuel,
{
    fuel > 0 && (!m.contains_key(key) || match m[key]@.parent_id {
        None => true,
        Some(p) => chain_ends(m, p, (fuel - 1) as nat),
    })
}

/// `title` preceded by the titles of the collection `key` and its
/// ancestors, following at most `fuel` parents.
pub open spec fn prefixed_title(
    m: Map<u32, VideoCollection>,
    key: u32,
    title: Seq<char>,
    fuel: nat,
) -> Seq<char>
    decreases fuel,
{
    if fuel == 0 || !m.contains_key(key) {
        title
    } else {
        let t = m[key]@.title + arrow() + title;
        match m[key]@.parent_id {
            None => t,
            Some(p) => prefixed_title(m, p, t, (fuel - 1) as nat),
        }
    }
}

/// Whether the chain of parents that starts at `key` ends.
pub open spec fn has_finite_ancestry(m: Map<u32, VideoCollection>, key: u32) -> bool {
    exists|fuel: nat| chain_ends(m, key, fuel)
}

/// `title` preceded by the titles of collection `key` and all its
/// ancestors, outermost first. Any fuel within which the chain ends gives
/// this same full title, since the chain then ends before the fuel does.
pub open spec fn ancestry_title(m: Map<u32, VideoCollection>, key: u32, title: Seq<char>) -> Seq<
    char,
> {
    prefixed_title(m, key, title, choose|fuel: nat| chain_ends(m, key, fuel))
}

/// Whether every collection of the map has a finite chain of parents.
pub open spec fn ancestry_is_finite(m: Map<u32, VideoCollection>) -> bool {
    forall|k: u32| #[trigger] m.contains_key(k) ==> has_finite_ancestry(m, k)
}

/// The full title of collection `key` of the map: its own title when it is
/// a root, else its title preceded by those of its ancestors.
pub open spec fn full_title(m: Map<u32, VideoCollection>, key: u32) -> Seq<char> {
    match m[key]@.parent_id {
        None => m[key]@.title,
        Some(p) => ancestry_title(m, p, m[key]@.title),
    }
}

/// The map from identifier to collection that a list of collections gives
/// when a later collection replaces an earlier one with the same identifier.
pub open spec fn collection_map(s: Seq<VideoCollection>) -> Map<u32, VideoCollection>
    decreases s.len(),
{
    if s.len() == 0 {
        Map::empty()
    } else {
        collection_map(s.drop_last()).insert(s.last()@.collection_id, s.last())
    }
}

/// The given title always ends the prefixed title.
pub proof fn lemma_prefixed_title_suffix(
    m: Map<u32, VideoCollection>,
    key: u32,
    title: Seq<char>,
    fuel: nat,
)
    ensures
        exists|p: Seq<char>| prefixed_title(m, key, title, fuel) == p + title,
    decreases fuel,
{
    if fuel == 0 || !m.contains_key(key) {
        assert(prefixed_title(m, key, title, fuel) == Seq::<char>::empty() + title);
    } else {
        let head = m[key]@.title + arrow();
        let t = m[key]@.title + arrow() + title;
        match m[key]@.parent_id {
            None => {
                assert(prefixed_title(m, key, title, fuel) == head + title);
            },
            Some(q) => {
                lemma_prefixed_title_suffix(m, q, t, (fuel - 1) as nat);
                let p = choose|p: Seq<char>|
                    prefixed_title(m, q, t, (fuel - 1) as nat) == p + t;
                assert(prefixed_title(m, key, title, fuel) == (p + head) + title);
            },
        }
    }
}

/// The title of a collection whose parent is absent from the map is the
/// collection's own title; with a root parent it is the parent's title,
/// ` -> `, and the collection's title; and in every case the full title
/// ends with the title it started from.
pub proof fn lemma_ancestry_title(m: Map<u32, VideoCollection>, key: u32, title: Seq<char>)
    requires
        has_finite_ancestry(m, key),
    ensures
        !m.contains_key(key) ==> ancestry_title(m, key, title) == title,
        m.contains_key(key) && m[key]@.parent_id is None ==> ancestry_title(m, key, title)
            == m[key]@.title + arrow() + title,
        exists|p: Seq<char>| ancestry_title(m, key, title) == p + title,
{
    let fuel = choose|fuel: nat| chain_ends(m, key, fuel);
    lemma_prefixed_title_suffix(m, key, title, fuel);
}

/// `title` preceded by the titles of collection `key` and its ancestors,
/// following at most `fuel` parents.
fn add_parent_title_within(
    title: String,
    parent_key: u32,
    map: &HashMap<u32, VideoCollection>,
    Ghost(fuel): Ghost<nat>,
) -> (r: String)
    requires
        chain_ends(map@, parent_key, fuel),
    ensures
        r@ == prefixed_title(map@, parent_key, title@, fuel),
    decreases fuel,
{
    match map.get(&parent_key) {
        Some(parent_coll) => {
            let mut t = String::new();
            push_str(&mut t, parent_coll.get_title());
            push_str(&mut t, " -> ");
            push_str(&mut t, title.as_str());
            proof {
                reveal_strlit(" -> ");
                assert(" -> "@ =~= arrow());
            }
            if !parent_coll.is_root() {
                let p = parent_coll.get_parent_id();
                match p {
                    Some(pk) => add_parent_title_within(t, pk.0, map, Ghost((fuel - 1) as nat)),
                    None => t,
                }
            } else {
                t
            }
        },
        None => title,
    }
}

/// `title` preceded by the titles of the collection `parent_key` and of all
/// its ancestors, outermost first, each followed by ` -> `. A key absent
/// from the map ends the chain.
pub fn add_parent_title(
    title: String,
    parent_key: CollectionId,
    map: &HashMap<u32, VideoCollection>,
) -> (r: String)
    requires
        has_finite_ancestry(map@, parent_key.0),
    ensures
        r@ == ancestry_title(map@, parent_key.0, title@),
{
    let ghost fuel = choose|fuel: nat| chain_ends(map@, parent_key.0, fuel);
    add_parent_title_within(title, parent_key.0, map, Ghost(fuel))
}

/// A chain that ends from a collection also ends from its parent.
proof fn lemma_parent_chain_ends(m: Map<u32, VideoCollection>, k: u32)
    requires
        m.contains_key(k),
        has_finite_ancestry(m, k),
        m[k]@.parent_id is Some,
    ensures
        has_finite_ancestry(m, m[k]@.parent_id->0),
{
    let fuel = choose|fuel: nat| chain_ends(m, k, fuel);
    assert(chain_ends(m, m[k]@.parent_id->0, (fuel - 1) as nat));
}

/// The map from identifier to collection of a list of collections, a later
/// collection replacing an earlier one with the same identifier, and the
/// identifiers in list order.
fn collection_map_of(collections: &Vec<VideoCollection>) -> (r: (HashMap<u32, VideoCollection>, Vec<u32>))
    ensures
        r.0@ == collection_map(collections@),
        r.1@.len() == collections@.len(),
        forall|j: int| 0 <= j < r.1@.len() ==> r.1@[j] == collections@[j]@.collection_id,
{
    let ghost all = collections@;
    let n = collections.len();
    let mut ids: Vec<u32> = Vec::new();
    let mut map: HashMap<u32, VideoCollection> = HashMap::new();
    let mut i: usize = 0;
    while i < n
        invariant
            n == all.len(),
            all == collections@,
            i <= n,
            map@ == collection_map(all.take(i as int)),
            ids@.len() == i,
            forall|j: int| 0 <= j < i ==> ids@[j] == all[j]@.collection_id,
        decreases n - i,
    {
        let c = collections[i].duplicate();
        let id = c.get_id().0;
        ids.push(id);
        map.insert(id, c);
        assert(all.take(i + 1).drop_last() =~= all.take(i as int));
        i += 1;
    }
    assert(all.take(n as int) =~= all);
    (map, ids)
}

/// Whether following parents from `key` leaves the map, or reaches a root,
/// within `fuel` steps.
fn chain_ends_within(map: &HashMap<u32, VideoCollection>, key: u32, fuel: u128) -> (r: bool)
    ensures
        r == chain_ends(map@, key, fuel as nat),
    decreases fuel,
{
    if fuel == 0 {
        return false;
    }
    match map.get(&key) {
        None => true,
        Some(c) => match c.get_parent_id() {
            None => true,
            Some(p) => chain_ends_within(map, p.0, fuel - 1),
        },
    }
}

/// Whether the chain of parents goes on past collection `x`: it is in the
/// map and has a parent.
pub open spec fn continues(m: Map<u32, VideoCollection>, x: u32) -> bool {
    m.contains_key(x) && m[x]@.parent_id is Some
}

/// The identifier `i` parent steps above `key`.
pub open spec fn ancestor(m: Map<u32, VideoCollection>, key: u32, i: nat) -> u32
    decreases i,
{
    if i == 0 {
        key
    } else {
        ancestor(m, m[key]@.parent_id->0, (i - 1) as nat)
    }
}

/// More fuel never stops a chain from ending.
proof fn lemma_chain_ends_monotone(m: Map<u32, VideoCollection>, key: u32, f: nat, g: nat)
    requires
        chain_ends(m, key, f),
        f <= g,
    ensures
        chain_ends(m, key, g),
    decreases f,
{
    if continues(m, key) {
        lemma_chain_ends_monotone(m, m[key]@.parent_id->0, (f - 1) as nat, (g - 1) as nat);
    }
}

/// Climbing `a` and then `b` steps is climbing `a + b` steps.
proof fn lemma_ancestor_add(m: Map<u32, VideoCollection>, key: u32, a: nat, b: nat)
    ensures
        ancestor(m, key, a + b) == ancestor(m, ancestor(m, key, a), b),
    decreases a,
{
    if a > 0 {
        lemma_ancestor_add(m, m[key]@.parent_id->0, (a - 1) as nat, b);
        assert((a + b - 1) as nat == (a - 1) as nat + b);
    }
}

/// After `t` steps through collections with parents, a chain that ends
/// within `f` steps ends within `f - t` steps.
proof fn lemma_chain_shift(m: Map<u32, VideoCollection>, key: u32, f: nat, t: nat)
    requires
        chain_ends(m, key, f),
        forall|s: nat| s < t ==> continues(m, #[trigger] ancestor(m, key, s)),
    ensures
        f > t,
        chain_ends(m, ancestor(m, key, t), (f - t) as nat),
    decreases t,
{
    if t > 0 {
        let p = m[key]@.parent_id->0;
        assert(continues(m, ancestor(m, key, 0)));
        assert forall|s: nat| s < (t - 1) as nat implies continues(m, #[trigger] ancestor(m, p, s)) by {
            assert(ancestor(m, key, s + 1) == ancestor(m, p, s));
            assert(continues(m, ancestor(m, key, s + 1)));
        }
        lemma_chain_shift(m, p, (f - 1) as nat, (t - 1) as nat);
        assert(ancestor(m, key, t) == ancestor(m, p, (t - 1) as nat));
    }
}

/// A chain that fails to end within `g` steps goes through `g` collections
/// with parents.
proof fn lemma_unended_chain_continues(m: Map<u32, VideoCollection>, key: u32, g: nat)
    requires
        !chain_ends(m, key, g),
    ensures
        forall|s: nat| s < g ==> continues(m, #[trigger] ancestor(m, key, s)),
    decreases g,
{
    if g > 0 {
        let p = m[key]@.parent_id->0;
        lemma_unended_chain_continues(m, p, (g - 1) as nat);
        assert forall|s: nat| s < g implies continues(m, #[trigger] ancestor(m, key, s)) by {
            if s > 0 {
                assert(ancestor(m, key, s) == ancestor(m, p, (s - 1) as nat));
            }
        }
    }
}

/// A chain that comes back to a collection it passed never ends.
proof fn lemma_cycle_never_ends(m: Map<u32, VideoCollection>, key: u32, i: nat, j: nat, f: nat)
    requires
        i < j,
        ancestor(m, key, i) == ancestor(m, key, j),
        forall|s: nat| s < j ==> continues(m, #[trigger] ancestor(m, key, s)),
    ensures
        !chain_ends(m, key, f),
{
    let x = ancestor(m, key, i);
    let p = (j - i) as nat;
    lemma_ancestor_add(m, key, i, p);
    assert forall|s: nat| s < p implies continues(m, #[trigger] ancestor(m, x, s)) by {
        lemma_ancestor_add(m, key, i, s);
        assert(continues(m, ancestor(m, key, i + s)));
    }
    if chain_ends(m, key, f) {
        lemma_chain_shift(m, key, f, i);
        lemma_cycle_from_start(m, x, p, (f - i) as nat);
    }
}

/// A chain from `x` that returns to `x` after `p` steps never ends.
proof fn lemma_cycle_from_start(m: Map<u32, VideoCollection>, x: u32, p: nat, f: nat)
    requires
        p > 0,
        ancestor(m, x, p) == x,
        forall|s: nat| s < p ==> continues(m, #[trigger] ancestor(m, x, s)),
    ensures
        !chain_ends(m, x, f),
    decreases f,
{
    if chain_ends(m, x, f) {
        lemma_chain_shift(m, x, f, p);
        lemma_cycle_from_start(m, x, p, (f - p) as nat);
    }
}

/// A chain that ends at all ends within one more step than the map has
/// collections: otherwise it passes some collection twice.
proof fn lemma_chain_ends_bounded(m: Map<u32, VideoCollection>, key: u32, f: nat)
    requires
        m.dom().finite(),
        chain_ends(m, key, f),
    ensures
        chain_ends(m, key, m.dom().len() + 1),
{
    let n = m.dom().len();
    if !chain_ends(m, key, n + 1) {
        lemma_unended_chain_continues(m, key, n + 1);
        let a = Seq::new(n + 1, |s: int| ancestor(m, key, s as nat));
        assert(a.to_set().subset_of(m.dom())) by {
            assert forall|x: u32| a.to_set().contains(x) implies m.dom().contains(x) by {
                let s = choose|s: int| 0 <= s < a.len() && a[s] == x;
                assert(continues(m, ancestor(m, key, s as nat)));
            }
        }
        vstd::set_lib::lemma_len_subset(a.to_set(), m.dom());
        if a.no_duplicates() {
            a.unique_seq_to_set();
        } else {
            let (i, j) = choose|i: int, j: int|
                0 <= i < a.len() && 0 <= j < a.len() && i != j && a[i] == a[j];
            if i < j {
                lemma_cycle_never_ends(m, key, i as nat, j as nat, f);
            } else {
                lemma_cycle_never_ends(m, key, j as nat, i as nat, f);
            }
        }
    }
}

/// The collection map of a list is finite and has at most one key per
/// collection.
proof fn lemma_collection_map_size(s: Seq<VideoCollection>)
    ensures
        collection_map(s).dom().finite(),
        collection_map(s).dom().len() <= s.len(),
    decreases s.len(),
{
    if s.len() > 0 {
        lemma_collection_map_size(s.drop_last());
    }
}

/// The number of parent steps within which the chain of every collection
/// of a list is checked to end: one more than the number of collections.
pub open spec fn ancestry_bound(collections: Seq<VideoCollection>) -> nat {
    collections.len() + 1
}

/// Whether every collection of the list has a finite chain of parents, as
/// `collection_titles` needs; each chain is followed for at most
/// `ancestry_bound` steps, which a finite chain never needs to exceed.
pub fn collection_ancestry_ends(collections: &Vec<VideoCollection>) -> (r: bool)
    ensures
        r == ancestry_is_finite(collection_map(collections@)),
{
    let ghost m = collection_map(collections@);
    let ghost bound = ancestry_bound(collections@);
    let (map, ids) = collection_map_of(collections);
    let n = ids.len();
    let fuel: u128 = n as u128 + 1;
    let mut j: usize = 0;
    while j < n
        invariant
            n == ids@.len(),
            n == collections@.len(),
            j <= n,
            map@ == m,
            m == collection_map(collections@),
            bound == ancestry_bound(collections@),
            fuel == bound,
            forall|x: int| 0 <= x < n ==> ids@[x] == collections@[x]@.collection_id,
            forall|x: int| 0 <= x < j ==> chain_ends(m, #[trigger] ids@[x], bound),
        decreases n - j,
    {
        if !chain_ends_within(&map, ids[j], fuel) {
            proof {
                let k = ids@[j as int];
                lemma_collection_map_contains(collections@, j as int);
                lemma_collection_map_size(collections@);
                if has_finite_ancestry(m, k) {
                    let f = choose|f: nat| chain_ends(m, k, f);
                    lemma_chain_ends_bounded(m, k, f);
                    lemma_chain_ends_monotone(m, k, m.dom().len() + 1, bound);
                }
                assert(!ancestry_is_finite(m));
            }
            return false;
        }
        j += 1;
    }
    assert forall|k: u32| #[trigger] m.contains_key(k) implies has_finite_ancestry(m, k) by {
        lemma_collection_map_key(collections@, k);
        let x = choose|x: int| 0 <= x < collections@.len() && collections@[x]@.collection_id == k;
        assert(ids@[x] == k);
        assert(chain_ends(m, k, bound));
    }
    true
}

/// The full title of every collection, keyed by identifier, where a later
/// collection replaces an earlier one with the same identifier.
pub fn collection_titles(collections: Vec<VideoCollection>) -> (r: HashMap<u32, String>)
    requires
        ancestry_is_finite(collection_map(collections@)),
    ensures
        r@.dom() == collection_map(collections@).dom(),
        forall|k: u32| #[trigger]
            r@.contains_key(k) ==> r@[k]@ == full_title(collection_map(collections@), k),
{
    let ghost all = collections@;
    let n = collections.len();
    let (map, ids) = collection_map_of(&collections);
    let ghost m = map@;
    assert forall|k: int| 0 <= k < n implies m.contains_key(#[trigger] ids@[k]) by {
        lemma_collection_map_contains(all, k);
    }
    let mut result: HashMap<u32, String> = HashMap::new();
    let mut j: usize = 0;
    while j < n
        invariant
            n == ids@.len(),
            j <= n,
            map@ == m,
            m == collection_map(all),
            ancestry_is_finite(m),
            forall|k: int| 0 <= k < n ==> m.contains_key(#[trigger] ids@[k]),
            forall|k: int| 0 <= k < n ==> ids@[k] == all[k]@.collection_id,
            n == all.len(),
            result@.dom() == Set::new(|k: u32| exists|x: int| 0 <= x < j && ids@[x] == k),
            forall|k: u32| #[trigger] result@.contains_key(k) ==> result@[k]@ == full_title(m, k),
        decreases n - j,
    {
        let id = ids[j];
        assert(m.contains_key(ids@[j as int]));
        match map.get(&id) {
            Some(coll) => {
                let mut title = String::new();
                push_str(&mut title, coll.get_title());
                let full = match coll.get_parent_id() {
                    Some(parent) => {
                        proof {
                            lemma_parent_chain_ends(m, id);
                        }
                        add_parent_title(title, parent, &map)
                    },
                    None => title,
                };
                result.insert(id, full);
            },
            None => {},
        }
        j += 1;
        assert(result@.dom() =~= Set::new(|k: u32| exists|x: int| 0 <= x < j && ids@[x] == k));
    }
    assert(result@.dom() =~= m.dom()) by {
        assert forall|k: u32| m.contains_key(k) implies result@.contains_key(k) by {
            lemma_collection_map_key(all, k);
            let x = choose|x: int| 0 <= x < all.len() && all[x]@.collection_id == k;
            assert(ids@[x] == k);
        }
    }
    result
}

/// The collection map holds exactly the identifiers of the list, and for
/// each the last collection of the list that has it.
#[verifier::spinoff_prover]
#[verifier::rlimit(40)]
pub proof fn lemma_last_collection_wins(s: Seq<VideoCollection>, k: u32)
    ensures
        collection_map(s).contains_key(k) <==> exists|i: int|
            0 <= i < s.len() && #[trigger] s[i]@.collection_id == k,
        forall|i: int|
            0 <= i < s.len() && #[trigger] s[i]@.collection_id == k && (forall|j: int|
                i < j < s.len() ==> s[j]@.collection_id != k) ==> collection_map(s)[k] == s[i],
    decreases s.len(),
{
    if s.len() > 0 {
        let t = s.drop_last();
        let n = s.len() - 1;
        let m = collection_map(t);
        let lid = s[n]@.collection_id;
        lemma_last_collection_wins(t, k);
        assert(collection_map(s) == m.insert(lid, s[n]));
        assert forall|i: int| 0 <= i < t.len() implies #[trigger] t[i] == s[i] by {}
        if lid == k {
            assert(s[n]@.collection_id == k);
            assert forall|i: int|
                0 <= i < s.len() && #[trigger] s[i]@.collection_id == k && (forall|j: int|
                    i < j < s.len() ==> s[j]@.collection_id != k) implies collection_map(s)[k]
                == s[i] by {
                if i < n {
                    assert(s[n]@.collection_id == k);
                }
            }
        } else {
            if m.contains_key(k) {
                let x = choose|x: int| 0 <= x < t.len() && #[trigger] t[x]@.collection_id == k;
                assert(s[x]@.collection_id == k);
            }
            if exists|i: int| 0 <= i < s.len() && #[trigger] s[i]@.collection_id == k {
                let i = choose|i: int| 0 <= i < s.len() && #[trigger] s[i]@.collection_id == k;
                assert(i < n);
                assert(t[i]@.collection_id == k);
            }
            assert forall|i: int|
                0 <= i < s.len() && #[trigger] s[i]@.collection_id == k && (forall|j: int|
                    i < j < s.len() ==> s[j]@.collection_id != k) implies collection_map(s)[k]
                == s[i] by {
                assert(i < n);
                assert(t[i]@.collection_id == k);
                assert forall|j: int| i < j < t.len() implies t[j]@.collection_id != k by {
                    assert(t[j] == s[j]);
                }
            }
        }
    }
}

/// The identifier of every collection is a key of the collection map.
proof fn lemma_collection_map_contains(s: Seq<VideoCollection>, x: int)
    requires
        0 <= x < s.len(),
    ensures
        collection_map(s).contains_key(s[x]@.collection_id),
    decreases s.len(),
{
    if x < s.len() - 1 {
        lemma_collection_map_contains(s.drop_last(), x);
        assert(s.drop_last()[x] == s[x]);
    }
}

/// Every key of the collection map is the identifier of a collection.
proof fn lemma_collection_map_key(s: Seq<VideoCollection>, k: u32)
    requires
        collection_map(s).contains_key(k),
    ensures
        exists|x: int| 0 <= x < s.len() && s[x]@.collection_id == k,
    decreases s.len(),
{
    if s.last()@.collection_id != k {
        lemma_collection_map_key(s.drop_last(), k);
        let x = choose|x: int| 0 <= x < s.drop_last().len() && s.drop_last()[x]@.collection_id == k;
        assert(s[x] == s.drop_last()[x]);
    }
}

/// A page template with its list of entries filled in.
pub open spec fn filled_video_list(template: Seq<char>, video_list: Seq<Seq<char>>) -> Seq<char> {
    replace_all(template, "{videoListEntries}"@, concat_all(video_list))
}

/// Fills `{videoListEntries}` of a page template with all list items, one
/// after the other.
pub fn fill_video_list(template: &str, video_list: &Vec<String>) -> (r: String)
    ensures
        r@ == filled_video_list(template@, video_list.deep_view()),
{
    let entries = concat_strings(video_list);
    replace(template, "{videoListEntries}", entries.as_str())
}

/// A page template holding the placeholder `{videoListEntries}` once,
/// between texts without `{`, becomes those texts with all list items,
/// one after the other, in its place; with no items the placeholder
/// disappears.
pub proof fn lemma_fill_video_list(a: Seq<char>, b: Seq<char>, video_list: Seq<Seq<char>>)
    requires
        !a.contains('{'),
        !b.contains('{'),
    ensures
        filled_video_list(a + "{videoListEntries}"@ + b, video_list) == a + concat_all(video_list)
            + b,
        video_list.len() == 0 ==> filled_video_list(a + "{videoListEntries}"@ + b, video_list)
            == a + b,
{
    reveal_strlit("{videoListEntries}");
    let pat = "{videoListEntries}"@;
    assert(pat[0] == '{');
    lemma_replace_single(a, b, pat, concat_all(video_list));
    if video_list.len() == 0 {
        assert(a + Seq::<char>::empty() + b =~= a + b);
    }
}

/// The page of an uncategorized video: `{title}` and then `{file_name}`
/// replaced by the file name.
pub fn render_uncategorized_video_page(template: &str, file_name: &str) -> (r: String)
    ensures
        r@ == replace_all(
            replace_all(template@, "{title}"@, file_name@),
            "{file_name}"@,
            file_name@,
        ),
{
    let t = replace(template, "{title}", file_name);
    replace(t.as_str(), "{file_name}", file_name)
}

/// The piece of a file name after its first `.` and before any second one.
pub open spec fn file_type_spec(file_name: Seq<char>) -> Option<Seq<char>> {
    let parts = split(file_name, seq!['.']);
    if parts.len() > 1 {
        Some(parts[1])
    } else {
        None
    }
}

/// The type of a file is exactly the piece of its name between the first
/// `.` and the next `.` or the end; a name without `.` has no type.
pub proof fn lemma_file_type_piece(name: Seq<char>, t: Seq<char>, rest: Seq<char>)
    requires
        free_of(name, seq!['.']),
        free_of(t, seq!['.']),
    ensures
        file_type_spec(name) is None,
        file_type_spec(name + seq!['.'] + t) == Some(t),
        file_type_spec(name + seq!['.'] + t + seq!['.'] + rest) == Some(t),
{
    let dot = seq!['.'];
    assert(dot.contains('.')) by {
        assert(dot[0] == '.');
    }
    lemma_split_free(name, dot);
    lemma_split_two(name, '.', t, dot);
    assert(free_of(Seq::<char>::empty(), dot));
    lemma_split_three(name, '.', t, '.', Seq::empty(), dot);
    let head = name + dot + t + dot;
    assert(head + Seq::<char>::empty() =~= head);
    lemma_split_append(head, rest, dot);
    lemma_split_nonempty(rest, dot);
    assert(name + seq!['.'] + t + seq!['.'] + rest =~= head + rest);
    assert(split(head + rest, dot)[1] == t);
}

/// The type of a file, as the piece of its name after the first `.`
/// (`None` when the name has no `.`).
pub fn file_type_of(file_name: &str) -> (r: Option<String>)
    ensures
        match file_type_spec(file_name@) {
            Some(t) => r matches Some(s) && s@ == t,
            None => r is None,
        },
{
    let name = chars_of(file_name);
    let mut dot: Vec<char> = Vec::new();
    dot.push('.');
    assert(dot@ =~= seq!['.']);
    let parts = split_chars(&name, &dot);
    if parts.len() > 1 {
        assert(parts@[1]@ == char_views(parts@)[1]);
        Some(string_of(&parts[1]))
    } else {
        None
    }
}

/// The collection identifier that a form field denotes, read as
/// `u32::from_str` reads it.
pub fn parse_collection_id(collection_id: &str) -> (r: Option<CollectionId>)
    ensures
        match parse_unsigned(collection_id@, u32::MAX as nat) {
            Some(n) => r == Some(CollectionId(n as u32)),
            None => r is None,
        },
{
    let chars = chars_of(collection_id);
    match parse_u32(&chars) {
        Some(v) => Some(CollectionId(v)),
        None => None,
    }
}

/// The entry that categorizing a video stores: its type is the piece of
/// the file name after the first `.`; `None` when the name has no `.`.
pub fn categorized_entry(
    video_id: VideoId,
    title: String,
    file_name: String,
    collection_id: CollectionId,
) -> (r: Option<VideoEntry>)
    ensures
        match file_type_spec(file_name@) {
            Some(t) => r matches Some(e) && e@ == (VideoEntryView {
                video_id: video_id.0,
                file_name: file_name@,
                title: title@,
                file_type: t,
                collection_id: collection_id.0,
            }),
            None => r is None,
        },
{
    match file_type_of(file_name.as_str()) {
        Some(file_type) => Some(VideoEntry::new(video_id, title, file_name, file_type, collection_id)),
        None => None,
    }
}

/// Where the collection of a categorized video comes from.
pub enum CategorizeStep {
    /// No identifier was given: a root collection named after the video's
    /// title is created and used.
    CreateCollection,
    /// The file name has no type after a `.`.
    MissingFileType,
    /// The identifier given is not a `u32`.
    InvalidCollectionId,
    /// The collection with the identifier given.
    UseCollection(CollectionId),
}

/// The first decision of categorizing a video: an empty collection field
/// asks for a new collection; otherwise the file type is read first and
/// then the identifier is parsed.
pub fn categorize_step(file_name: &str, collection_id: &str) -> (r: CategorizeStep)
    ensures
        collection_id@.len() == 0 ==> r == CategorizeStep::CreateCollection,
        collection_id@.len() != 0 && file_type_spec(file_name@) is None ==> r
            == CategorizeStep::MissingFileType,
        collection_id@.len() != 0 && file_type_spec(file_name@) is Some ==> r == match parse_unsigned(
            collection_id@,
            u32::MAX as nat,
        ) {
            Some(n) => CategorizeStep::UseCollection(CollectionId(n as u32)),
            None => CategorizeStep::InvalidCollectionId,
        },
{
    if collection_id.is_empty() {
        return CategorizeStep::CreateCollection;
    }
    match file_type_of(file_name) {
        None => CategorizeStep::MissingFileType,
        Some(_) => match parse_collection_id(collection_id) {
            Some(id) => CategorizeStep::UseCollection(id),
            None => CategorizeStep::InvalidCollectionId,
        },
    }
}

/// Where to send the browser after categorizing: the `return_url` query
/// value, or `/` without one.
pub fn return_url<'a>(query_value: Option<&'a str>) -> (r: &'a str)
    ensures
        r@ == match query_value {
            Some(q) => q@,
            None => "/"@,
        },
{
    match query_value {
        Some(q) => q,
        None => "/",
    }
}

/// Whether a categorized entry is stored as a new row or updates its row.
pub enum StoreAction {
    Insert(VideoEntry),
    Update(VideoEntry),
}

/// An entry with identifier 0 is new and is inserted; any other updates
/// the row with its identifier.
pub fn store_action(entry: VideoEntry) -> (r: StoreAction)
    ensures
        entry@.video_id == 0 ==> r == StoreAction::Insert(entry),
        entry@.video_id != 0 ==> r == StoreAction::Update(entry),
{
    if entry.get_id().0 == 0 {
        StoreAction::Insert(entry)
    } else {
        StoreAction::Update(entry)
    }
}

/// Whether an answer to the question before erasing the database agrees:
/// its first character is `y` or `Y`.
pub fn confirms_erase(input: &str) -> (r: bool)
    ensures
        r == (input@.len() > 0 && (input@[0] == 'y' || input@[0] == 'Y')),
{
    let chars = chars_of(input);
    chars.len() > 0 && (chars[0] == 'y' || chars[0] == 'Y')
}

} // verus!
