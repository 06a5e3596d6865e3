use rustystreamer::controller::{categorize_step, CategorizeStep};
use rustystreamer::video_controller::video_mime;
use rustystreamer::collection_id::CollectionId;
use rustystreamer::consts::VIDEO_LIST_HTML;
use rustystreamer::controller::{
    categorized_entry, confirms_erase, file_type_of, fill_video_list, parse_collection_id,
    render_uncategorized_video_page, return_url, store_action, StoreAction,
};
use rustystreamer::html_helper::{
    collection_html_item, create_video_html_list, uncategorized_video_params, video_html_params,
    CreateVideoHtmlListParameter,
};
use rustystreamer::video_collection::VideoCollection;
use rustystreamer::video_controller::{default_timestamp_json, render_video_page, uncategorized_video_target};
use rustystreamer::video_entry::VideoEntry;
use rustystreamer::video_id::VideoId;

fn param(link: &str, title: &str, thumb: &str) -> CreateVideoHtmlListParameter {
    CreateVideoHtmlListParameter { item_link: link.to_string(), title: title.to_string(), thumbnail_id: thumb.to_string() }
}

#[test]
fn video_list_items() {
    let items = create_video_html_list(vec![param("/video/3", "Three", "3"), param("/x", "{editLink}", "9")]);
    assert_eq!(items.len(), 2);
    let expected = VIDEO_LIST_HTML
        .replace("{itemLink}", "/video/3")
        .replace("{editLink}", "/video/3")
        .replace("{title}", "Three")
        .replace("{thumbnailLink}", "/thumbnail/video/3");
    assert_eq!(items[0], expected);
    assert!(items[0].contains("<a href=\"/video/3\"><img src=\"/thumbnail/video/3\""));
    let expected2 = VIDEO_LIST_HTML
        .replace("{itemLink}", "/x")
        .replace("{editLink}", "/x")
        .replace("{title}", "{editLink}")
        .replace("{thumbnailLink}", "/thumbnail/video/9");
    assert_eq!(items[1], expected2);
    assert!(create_video_html_list(vec![]).is_empty());
}

#[test]
fn video_params_of_entries() {
    let e = VideoEntry::new(VideoId(12), "Twelve".to_string(), "twelve.mp4".to_string(), "mp4".to_string(), CollectionId(2));
    let p = video_html_params(&vec![e]);
    assert_eq!(p.len(), 1);
    assert_eq!(p[0].item_link, "/video/12");
    assert_eq!(p[0].title, "Twelve");
    assert_eq!(p[0].thumbnail_id, "12");
}

#[test]
fn uncategorized_params_escape_links() {
    let p = uncategorized_video_params(vec!["a&b<c>.mp4".to_string()]);
    assert_eq!(p[0].item_link, "uncategorized/a&amp;b&lt;c&gt;.mp4");
    assert_eq!(p[0].title, "a&b<c>.mp4");
    assert_eq!(p[0].thumbnail_id, "-1");
}

#[test]
fn collection_items() {
    let c = VideoCollection::from_row_values(CollectionId(4), "Holiday".to_string(), None);
    let single = collection_html_item(&c, Some(VideoId(17)));
    let expected = VIDEO_LIST_HTML
        .replace("{itemLink}", "/video/17")
        .replace("{title}", "Holiday")
        .replace("{thumbnailLink}", "/thumbnail/video/17")
        .replace("{editLink}", "/video-entry/edit/17");
    assert_eq!(single, expected);
    let many = collection_html_item(&c, None);
    let expected = VIDEO_LIST_HTML
        .replace("{itemLink}", "/collection/4")
        .replace("{title}", "Holiday")
        .replace("{thumbnailLink}", "/thumbnail/collection/4")
        .replace("{editLink}", "/collection-entry/edit/4");
    assert_eq!(many, expected);
}

#[test]
fn page_filling() {
    let page = fill_video_list("<ul>{videoListEntries}</ul>", &vec!["<li>a</li>".to_string(), "<li>b</li>".to_string()]);
    assert_eq!(page, "<ul><li>a</li><li>b</li></ul>");
    assert_eq!(render_uncategorized_video_page("{title}|{file_name}|{title}", "v.mkv"), "v.mkv|v.mkv|v.mkv");
    assert_eq!(render_video_page("<h1>{title}</h1><video src=\"/video-resource/{videoId}\">", "Film", 31), "<h1>Film</h1><video src=\"/video-resource/31\">");
    assert_eq!(default_timestamp_json(7), "{\"timestamp\":0, \"id\":7}");
}

#[test]
fn file_types() {
    assert_eq!(file_type_of("movie.mp4"), Some("mp4".to_string()));
    assert_eq!(file_type_of("a.b.c"), Some("b".to_string()));
    assert_eq!(file_type_of("noext"), None);
    assert_eq!(file_type_of("trailing."), Some("".to_string()));
}

#[test]
fn uncategorized_targets() {
    let (name, t) = uncategorized_video_target("clip%2Emp4");
    assert_eq!(name, "clip.mp4");
    assert_eq!(t, Some("mp4".to_string()));
    let (name, t) = uncategorized_video_target("tom&amp;jerry%2Emkv");
    assert_eq!(name, "tom&jerry.mkv");
    assert_eq!(t, Some("mkv".to_string()));
    let (name, t) = uncategorized_video_target("plain");
    assert_eq!(name, "plain");
    assert_eq!(t, None);
}

#[test]
fn categorizing() {
    assert_eq!(parse_collection_id("15"), Some(CollectionId(15)));
    assert_eq!(parse_collection_id(""), None);
    assert_eq!(parse_collection_id("x1"), None);
    let e = categorized_entry(VideoId(0), "T".to_string(), "f.avi".to_string(), CollectionId(3)).unwrap();
    assert_eq!(e.get_file_type(), "avi");
    assert_eq!(e.get_file_name(), "f.avi");
    assert_eq!(e.get_title(), "T");
    assert_eq!(e.get_collection_id(), CollectionId(3));
    assert!(matches!(store_action(e), StoreAction::Insert(_)));
    let e = categorized_entry(VideoId(5), "T".to_string(), "f.avi".to_string(), CollectionId(3)).unwrap();
    assert!(matches!(store_action(e), StoreAction::Update(_)));
    assert!(categorized_entry(VideoId(5), "T".to_string(), "f".to_string(), CollectionId(3)).is_none());
    assert_eq!(return_url(Some("/collection/2")), "/collection/2");
    assert_eq!(return_url(None), "/");
}

#[test]
fn erase_confirmation() {
    assert!(confirms_erase("y\n"));
    assert!(confirms_erase("Yes"));
    assert!(!confirms_erase("n"));
    assert!(!confirms_erase(""));
}

#[test]
fn categorize_steps() {
    assert!(matches!(categorize_step("noext", ""), CategorizeStep::CreateCollection));
    assert!(matches!(categorize_step("a.mp4", ""), CategorizeStep::CreateCollection));
    assert!(matches!(categorize_step("noext", "x"), CategorizeStep::MissingFileType));
    assert!(matches!(categorize_step("a.mp4", "x"), CategorizeStep::InvalidCollectionId));
    match categorize_step("a.mp4", "12") {
        CategorizeStep::UseCollection(id) => assert_eq!(id, CollectionId(12)),
        _ => panic!("expected a collection"),
    }
}

#[test]
fn video_media_types() {
    assert_eq!(video_mime("mp4").unwrap().essence_str(), "video/mp4");
    for t in ["", "a b", "x-matroska", "mp4;codecs=avc1", "/"] {
        let text = format!("video/{}", t);
        assert_eq!(video_mime(t).is_some(), text.parse::<mime::Mime>().is_ok(), "type {:?}", t);
    }
    assert!(video_mime("a b").is_none());
}

#[test]
fn collection_item_lists() {
    let a = VideoCollection::from_row_values(CollectionId(1), "One".to_string(), None);
    let b = VideoCollection::from_row_values(CollectionId(2), "Two".to_string(), Some(CollectionId(1)));
    let list = rustystreamer::html_helper::collection_html_list(&vec![a, b], &vec![Some(VideoId(5)), None]);
    let a = VideoCollection::from_row_values(CollectionId(1), "One".to_string(), None);
    let b = VideoCollection::from_row_values(CollectionId(2), "Two".to_string(), Some(CollectionId(1)));
    assert_eq!(list, vec![collection_html_item(&a, Some(VideoId(5))), collection_html_item(&b, None)]);
    assert!(list[0].contains("/video/5"));
    assert!(list[1].contains("/collection/2"));
}
