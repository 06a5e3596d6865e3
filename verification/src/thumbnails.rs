//! Where the thumbnails of a video or collection are looked up, and which
//! one is shown.
use vstd::prelude::*;

use rand::Rng;

use crate::text::{chars_of, push_char, push_chars, push_str};

verus! {

/// A path without one trailing `/`, if it has one.
pub open spec fn without_trailing_slash(path: Seq<char>) -> Seq<char> {
    if path.len() > 0 && path.last() == '/' {
        path.drop_last()
    } else {
        path
    }
}

/// The directory of the thumbnails of item `id` of a category:
/// `{root}/{category}/{id}`, where a root ending in `/` loses that `/`.
pub open spec fn thumbnail_dir_spec(id: Seq<char>, category: Seq<char>, root: Seq<char>) -> Seq<
    char,
> {
    without_trailing_slash(root) + seq!['/'] + category + seq!['/'] + id
}

/// The directory that holds the thumbnails of item `id` of `category`.
pub fn thumbnail_dir(id: &str, category: &str, thumbnail_root_path: &str) -> (r: String)
    ensures
        r@ == thumbnail_dir_spec(id@, category@, thumbnail_root_path@),
{
    let mut root = chars_of(thumbnail_root_path);
    if root.len() > 0 && root[root.len() - 1] == '/' {
        root.pop();
        assert(root@ =~= without_trailing_slash(thumbnail_root_path@));
    }
    let mut s = String::new();
    push_chars(&mut s, &root);
    push_char(&mut s, '/');
    push_str(&mut s, category);
    push_char(&mut s, '/');
    push_str(&mut s, id);
    s
}

/// `rand::thread_rng().gen_range(0..upper)`: a number drawn at random that
/// is below `upper` (the range is not empty, so the call returns).
#[verifier::external_body]
fn random_below(upper: usize) -> (r: usize)
    requires
        0 < upper,
    ensures
        r < upper,
{
    rand::thread_rng().gen_range(0..upper)
}

/// The number of thumbnail files among which one is drawn: all but the
/// last of the `file_count` files.
pub fn thumbnail_draw_bound(file_count: usize) -> (r: usize)
    requires
        file_count > 0,
    ensures
        r == file_count - 1,
{
    file_count - 1
}

/// Which of `file_count` thumbnail files to show: none when there are no
/// files (the default thumbnail is shown), else one drawn at random below
/// `thumbnail_draw_bound`, that is, among all but the last. A single file
/// is refused, since then nothing can be drawn.
pub fn pick_thumbnail(file_count: usize) -> (r: Option<usize>)
    requires
        file_count != 1,
    ensures
        r is None <==> file_count == 0,
        r matches Some(i) ==> i < file_count - 1,
{
    if file_count == 0 {
        None
    } else {
        let bound = thumbnail_draw_bound(file_count);
        Some(random_below(bound))
    }
}

} // verus!
