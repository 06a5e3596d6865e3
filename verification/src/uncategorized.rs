//! The videos of the video directory that no stored entry names.
use vstd::prelude::*;

verus! {

/// The characters of each string.
pub open spec fn string_views(s: Seq<String>) -> Seq<Seq<char>> {
    s.map_values(|x: String| x@)
}

/// The names of `all` that `categorized` does not hold, in their order.
pub open spec fn uncategorized_spec(all: Seq<Seq<char>>, categorized: Seq<Seq<char>>) -> Seq<
    Seq<char>,
> {
    all.filter(|v: Seq<char>| !categorized.contains(v))
}

/// A name is reported as uncategorized exactly when the directory holds it
/// and no categorized entry names it.
pub proof fn lemma_uncategorized_members(
    all: Seq<Seq<char>>,
    categorized: Seq<Seq<char>>,
    v: Seq<char>,
)
    ensures
        uncategorized_spec(all, categorized).contains(v) <==> (all.contains(v)
            && !categorized.contains(v)),
{
    let pred = |x: Seq<char>| !categorized.contains(x);
    if uncategorized_spec(all, categorized).contains(v) {
        all.lemma_filter_contains_rev(pred, v);
        let i = choose|i: int|
            0 <= i < all.filter(pred).len() && all.filter(pred)[i] == v;
        all.lemma_filter_pred(pred, i);
    }
    if all.contains(v) && !categorized.contains(v) {
        let i = choose|i: int| 0 <= i < all.len() && all[i] == v;
        all.lemma_filter_contains(pred, i);
    }
}

/// Whether `names` holds a string equal to `name`.
fn holds_name(names: &Vec<String>, name: &String) -> (r: bool)
    ensures
        r == string_views(names@).contains(name@),
{
    let n = names.len();
    let mut i: usize = 0;
    while i < n
        invariant
            n == names@.len(),
            i <= n,
            forall|j: int| 0 <= j < i ==> names@[j]@ != name@,
        decreases n - i,
    {
        if names[i] == *name {
            assert(string_views(names@)[i as int] == name@);
            return true;
        }
        i += 1;
    }
    assert forall|j: int| 0 <= j < string_views(names@).len() implies string_views(names@)[j]
        != name@ by {
        assert(string_views(names@)[j] == names@[j]@);
    }
    false
}

/// The video files not named by any categorized entry, in directory order.
pub fn uncategorized_videos(all_videos: Vec<String>, categorized_videos: &Vec<String>) -> (r: Vec<
    String,
>)
    ensures
        string_views(r@) == uncategorized_spec(
            string_views(all_videos@),
            string_views(categorized_videos@),
        ),
{
    let ghost all = string_views(all_videos@);
    let ghost cat = string_views(categorized_videos@);
    let ghost pred = |v: Seq<char>| !cat.contains(v);
    let n = all_videos.len();
    let mut out: Vec<String> = Vec::new();
    let mut i: usize = 0;
    assert(all.take(0).filter(pred) =~= Seq::<Seq<char>>::empty()) by {
        reveal(Seq::filter);
    }
    while i < n
        invariant
            n == all_videos@.len(),
            all == string_views(all_videos@),
            cat == string_views(categorized_videos@),
            pred == (|v: Seq<char>| !cat.contains(v)),
            i <= n,
            string_views(out@) =~= all.take(i as int).filter(pred),
        decreases n - i,
    {
        let video = &all_videos[i];
        let known = holds_name(categorized_videos, video);
        let ghost before = out@;
        proof {
            reveal(Seq::filter);
            assert(all.take(i + 1).drop_last() =~= all.take(i as int));
            assert(all.take(i + 1).last() == video@);
        }
        if !known {
            out.push(video.clone());
            assert(string_views(out@) =~= string_views(before).push(video@));
        }
        i += 1;
    }
    assert(all.take(n as int) =~= all);
    out
}

} // verus!
