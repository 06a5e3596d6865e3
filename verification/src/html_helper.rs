//! HTML list items for videos and collections, filled into the
//! `VIDEO_LIST_HTML` template.
use vstd::prelude::*;

use crate::collection_id::CollectionId;
use crate::consts::VIDEO_LIST_HTML;
use crate::escape::{encode_text, encoded_text};
use crate::text::{decimal, push_decimal, push_str, replace, replace_all};
use crate::video_collection::VideoCollection;
use crate::video_entry::VideoEntry;
use crate::video_id::VideoId;

verus! {

/// The link, title and thumbnail of one item of a video list.
pub struct CreateVideoHtmlListParameter {
    pub item_link: String,
    pub title: String,
    pub thumbnail_id: String,
}

/// The template with the item link (also as edit link), the title, and the
/// video thumbnail link `/thumbnail/video/{thumbnail_id}` filled in, in
/// that order.
pub open spec fn video_item_html(
    item_link: Seq<char>,
    title: Seq<char>,
    thumbnail_id: Seq<char>,
) -> Seq<char> {
    let t1 = replace_all(VIDEO_LIST_HTML@, "{itemLink}"@, item_link);
    let t2 = replace_all(t1, "{editLink}"@, item_link);
    let t3 = replace_all(t2, "{title}"@, title);
    replace_all(t3, "{thumbnailLink}"@, "/thumbnail/video/"@ + thumbnail_id)
}

/// The HTML of one video list item.
pub fn video_html_item(param: &CreateVideoHtmlListParameter) -> (r: String)
    ensures
        r@ == video_item_html(param.item_link@, param.title@, param.thumbnail_id@),
{
    let mut thumbnail_link = String::new();
    push_str(&mut thumbnail_link, "/thumbnail/video/");
    push_str(&mut thumbnail_link, param.thumbnail_id.as_str());
    let t1 = replace(VIDEO_LIST_HTML, "{itemLink}", param.item_link.as_str());
    let t2 = replace(t1.as_str(), "{editLink}", param.item_link.as_str());
    let t3 = replace(t2.as_str(), "{title}", param.title.as_str());
    replace(t3.as_str(), "{thumbnailLink}", thumbnail_link.as_str())
}

/// One list item per parameter, in order.
pub fn create_video_html_list(create_video_html_list_param: Vec<CreateVideoHtmlListParameter>) -> (r:
    Vec<String>)
    ensures
        r@.len() == create_video_html_list_param@.len(),
        forall|i: int|
            0 <= i < r@.len() ==> #[trigger] r@[i]@ == video_item_html(
                create_video_html_list_param@[i].item_link@,
                create_video_html_list_param@[i].title@,
                create_video_html_list_param@[i].thumbnail_id@,
            ),
{
    let params = create_video_html_list_param;
    let n = params.len();
    let mut video_list: Vec<String> = Vec::new();
    let mut i: usize = 0;
    while i < n
        invariant
            n == params@.len(),
            i <= n,
            video_list@.len() == i,
            forall|j: int|
                0 <= j < i ==> #[trigger] video_list@[j]@ == video_item_html(
                    params@[j].item_link@,
                    params@[j].title@,
                    params@[j].thumbnail_id@,
                ),
        decreases n - i,
    {
        let item = video_html_item(&params[i]);
        video_list.push(item);
        i += 1;
    }
    video_list
}

/// The list item parameters of stored videos: the link `/video/{id}`, the
/// title, and the identifier as thumbnail.
pub fn video_html_params(video_entries: &Vec<VideoEntry>) -> (r: Vec<CreateVideoHtmlListParameter>)
    ensures
        r@.len() == video_entries@.len(),
        forall|i: int|
            0 <= i < r@.len() ==> {
                &&& #[trigger] r@[i].item_link@ == "/video/"@ + decimal(
                    video_entries@[i]@.video_id as nat,
                )
                &&& r@[i].title@ == video_entries@[i]@.title
                &&& r@[i].thumbnail_id@ == decimal(video_entries@[i]@.video_id as nat)
            },
{
    let n = video_entries.len();
    let mut params: Vec<CreateVideoHtmlListParameter> = Vec::new();
    let mut i: usize = 0;
    while i < n
        invariant
            n == video_entries@.len(),
            i <= n,
            params@.len() == i,
            forall|j: int|
                0 <= j < i ==> {
                    &&& #[trigger] params@[j].item_link@ == "/video/"@ + decimal(
                        video_entries@[j]@.video_id as nat,
                    )
                    &&& params@[j].title@ == video_entries@[j]@.title
                    &&& params@[j].thumbnail_id@ == decimal(video_entries@[j]@.video_id as nat)
                },
        decreases n - i,
    {
        let entry = &video_entries[i];
        let id = entry.get_id().0 as u64;
        let mut item_link = String::new();
        push_str(&mut item_link, "/video/");
        push_decimal(&mut item_link, id);
        let mut string_id = String::new();
        push_decimal(&mut string_id, id);
        let mut title = String::new();
        push_str(&mut title, entry.get_title());
        params.push(CreateVideoHtmlListParameter { item_link, title, thumbnail_id: string_id });
        i += 1;
    }
    params
}

/// The list item parameters of videos not yet categorized: the link
/// `uncategorized/{escaped file name}`, the file name as title, and the
/// thumbnail `-1`.
pub fn uncategorized_video_params(videos: Vec<String>) -> (r: Vec<CreateVideoHtmlListParameter>)
    ensures
        r@.len() == videos@.len(),
        forall|i: int|
            0 <= i < r@.len() ==> {
                &&& #[trigger] r@[i].item_link@ == "uncategorized/"@ + encoded_text(videos@[i]@)
                &&& r@[i].title@ == videos@[i]@
                &&& r@[i].thumbnail_id@ == "-1"@
            },
{
    let n = videos.len();
    let mut params: Vec<CreateVideoHtmlListParameter> = Vec::new();
    let mut i: usize = 0;
    while i < n
        invariant
            n == videos@.len(),
            i <= n,
            params@.len() == i,
            forall|j: int|
                0 <= j < i ==> {
                    &&& #[trigger] params@[j].item_link@ == "uncategorized/"@ + encoded_text(
                        videos@[j]@,
                    )
                    &&& params@[j].title@ == videos@[j]@
                    &&& params@[j].thumbnail_id@ == "-1"@
                },
        decreases n - i,
    {
        let video = videos[i].as_str();
        let escaped = encode_text(video);
        let mut item_link = String::new();
        push_str(&mut item_link, "uncategorized/");
        push_str(&mut item_link, escaped.as_str());
        let mut title = String::new();
        push_str(&mut title, video);
        let mut thumbnail_id = String::new();
        push_str(&mut thumbnail_id, "-1");
        params.push(CreateVideoHtmlListParameter { item_link, title, thumbnail_id });
        i += 1;
    }
    params
}

/// The template with the item link, the title, the thumbnail link and the
/// edit link filled in, in that order.
pub open spec fn collection_item_html(
    item_link: Seq<char>,
    title: Seq<char>,
    thumbnail_link: Seq<char>,
    edit_link: Seq<char>,
) -> Seq<char> {
    let t1 = replace_all(VIDEO_LIST_HTML@, "{itemLink}"@, item_link);
    let t2 = replace_all(t1, "{title}"@, title);
    let t3 = replace_all(t2, "{thumbnailLink}"@, thumbnail_link);
    replace_all(t3, "{editLink}"@, edit_link)
}

/// The list item of a collection. A collection that holds a single video
/// links to that video (`/video/{v}`, `/thumbnail/video/{v}`,
/// `/video-entry/edit/{v}`); any other links to the collection itself
/// (`/collection/{c}`, `/thumbnail/collection/{c}`,
/// `/collection-entry/edit/{c}`). The title is the collection's.
pub open spec fn collection_html(collection_id: u32, title: Seq<char>, single_video: Option<u32>) -> Seq<
    char,
> {
    match single_video {
        Some(v) => collection_item_html(
            "/video/"@ + decimal(v as nat),
            title,
            "/thumbnail/video/"@ + decimal(v as nat),
            "/video-entry/edit/"@ + decimal(v as nat),
        ),
        None => collection_item_html(
            "/collection/"@ + decimal(collection_id as nat),
            title,
            "/thumbnail/collection/"@ + decimal(collection_id as nat),
            "/collection-entry/edit/"@ + decimal(collection_id as nat),
        ),
    }
}

/// A link made of a prefix and a decimal number.
fn numbered_link(prefix: &str, n: u32) -> (r: String)
    ensures
        r@ == prefix@ + decimal(n as nat),
{
    let mut s = String::new();
    push_str(&mut s, prefix);
    push_decimal(&mut s, n as u64);
    s
}

/// The list item of `entry`, given the single video it holds, if any.
pub fn collection_html_item(entry: &VideoCollection, single_video: Option<VideoId>) -> (r: String)
    ensures
        r@ == collection_html(
            entry@.collection_id,
            entry@.title,
            match single_video {
                Some(v) => Some(v.0),
                None => None,
            },
        ),
{
    let (item_link, thumbnail_link, edit_link) = match single_video {
        Some(video) => (
            numbered_link("/video/", video.0),
            numbered_link("/thumbnail/video/", video.0),
            numbered_link("/video-entry/edit/", video.0),
        ),
        None => {
            let id: CollectionId = entry.get_id();
            (
                numbered_link("/collection/", id.0),
                numbered_link("/thumbnail/collection/", id.0),
                numbered_link("/collection-entry/edit/", id.0),
            )
        },
    };
    let t1 = replace(VIDEO_LIST_HTML, "{itemLink}", item_link.as_str());
    let t2 = replace(t1.as_str(), "{title}", entry.get_title());
    let t3 = replace(t2.as_str(), "{thumbnailLink}", thumbnail_link.as_str());
    replace(t3.as_str(), "{editLink}", edit_link.as_str())
}

/// The optional single video of each collection, as identifiers.
pub open spec fn single_views(singles: Seq<Option<VideoId>>) -> Seq<Option<u32>> {
    singles.map_values(|v: Option<VideoId>| match v {
        Some(id) => Some(id.0),
        None => None,
    })
}

/// One list item per collection, in order, given for each collection the
/// single video it holds, if any.
pub fn collection_html_list(collections: &Vec<VideoCollection>, singles: &Vec<Option<VideoId>>) -> (r:
    Vec<String>)
    requires
        singles@.len() == collections@.len(),
    ensures
        r@.len() == collections@.len(),
        forall|i: int|
            0 <= i < r@.len() ==> #[trigger] r@[i]@ == collection_html(
                collections@[i]@.collection_id,
                collections@[i]@.title,
                single_views(singles@)[i],
            ),
{
    let n = collections.len();
    let mut video_list: Vec<String> = Vec::new();
    let mut i: usize = 0;
    while i < n
        invariant
            n == collections@.len(),
            n == singles@.len(),
            i <= n,
            video_list@.len() == i,
            forall|j: int|
                0 <= j < i ==> #[trigger] video_list@[j]@ == collection_html(
                    collections@[j]@.collection_id,
                    collections@[j]@.title,
                    single_views(singles@)[j],
                ),
        decreases n - i,
    {
        let item = collection_html_item(&collections[i], singles[i]);
        video_list.push(item);
        i += 1;
    }
    video_list
}

} // verus!
