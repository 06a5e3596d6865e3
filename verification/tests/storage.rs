use std::collections::HashMap;

use rustystreamer::collection_id::CollectionId;
use rustystreamer::queries::{
    insert_collection_statement, insert_video_entry_params, single_row_step, timestamp_needs_insert,
    ScanStep, INSERT_CHILD_COLLECTION, INSERT_ROOT_COLLECTION,
};
use rustystreamer::thumbnails::{pick_thumbnail, thumbnail_dir};
use rustystreamer::uncategorized::uncategorized_videos;
use rustystreamer::video_collection::VideoCollection;
use rustystreamer::video_entry::VideoEntry;
use rustystreamer::video_id::VideoId;
use rustystreamer::video_index::{index_file_hash, index_from_entries, VideoIndex, VideoIndexEntry};
use rustystreamer::video_time_stamps::VideoTimeStamp;

fn entry(id: u32, title: &str) -> VideoIndexEntry {
    VideoIndexEntry::from_row_values(VideoId(id), format!("{}.mp4", title), title.to_string(), CollectionId(1), "mp4".to_string())
}

fn video(id: u32) -> VideoEntry {
    VideoEntry::new(VideoId(id), "t".to_string(), "f.mp4".to_string(), "mp4".to_string(), CollectionId(6))
}

#[test]
fn collection_statements() {
    let (sql, params) = insert_collection_statement(&VideoCollection::new("Kids".to_string(), Some(CollectionId(12))));
    assert_eq!(sql, INSERT_CHILD_COLLECTION);
    assert_eq!(params, vec!["Kids".to_string(), "12".to_string()]);
    let (sql, params) = insert_collection_statement(&VideoCollection::new("Top".to_string(), None));
    assert_eq!(sql, INSERT_ROOT_COLLECTION);
    assert_eq!(params, vec!["Top".to_string()]);
}

#[test]
fn video_statement_params() {
    let e = VideoEntry::new(VideoId(0), "Title".to_string(), "file.mkv".to_string(), "mkv".to_string(), CollectionId(44));
    assert_eq!(insert_video_entry_params(&e), vec!["Title", "file.mkv", "mkv", "44"]);
    assert!(timestamp_needs_insert(0));
    assert!(!timestamp_needs_insert(1));
}

fn run(rows: Vec<VideoEntry>) -> Option<VideoEntry> {
    let mut single = None;
    let mut rows = rows.into_iter().peekable();
    loop {
        let found = rows.peek().is_some();
        match single_row_step(single.take(), found) {
            ScanStep::TakeRow => single = rows.next(),
            ScanStep::Finish(r) => return r,
        }
    }
}

#[test]
fn single_video_scan() {
    assert!(run(vec![]).is_none());
    assert_eq!(run(vec![video(3)]).unwrap().get_id(), VideoId(3));
    assert!(run(vec![video(3), video(4)]).is_none());
    assert!(run(vec![video(3), video(4), video(5)]).is_none());
}

#[test]
fn thumbnail_dirs() {
    assert_eq!(thumbnail_dir("5", "video", "/thumbs/"), "/thumbs/video/5");
    assert_eq!(thumbnail_dir("5", "collection", "/thumbs"), "/thumbs/collection/5");
    assert_eq!(thumbnail_dir("5", "video", "/thumbs//"), "/thumbs//video/5");
}

#[test]
fn thumbnail_picks() {
    assert_eq!(pick_thumbnail(0), None);
    assert_eq!(pick_thumbnail(2), Some(0));
    for _ in 0..50 {
        let i = pick_thumbnail(5).unwrap();
        assert!(i < 4);
    }
}

#[test]
fn uncategorized_filter() {
    let all = vec!["a.mp4".to_string(), "b.mp4".to_string(), "c.mp4".to_string(), "a.mp4".to_string()];
    let known = vec!["a.mp4".to_string(), "z.mp4".to_string()];
    assert_eq!(uncategorized_videos(all, &known), vec!["b.mp4".to_string(), "c.mp4".to_string()]);
    assert!(uncategorized_videos(vec![], &known).is_empty());
}

#[test]
fn index_keeps_first_entry() {
    let idx = index_from_entries(&vec![entry(1, "one"), entry(2, "two"), entry(1, "uno")]);
    assert_eq!(idx.len(), 2);
    assert_eq!(idx[&1].get_title(), "one");
    assert_eq!(idx[&1].get_file_name(), "one.mp4");
    assert_eq!(idx[&1].get_file_type(), "mp4");
    assert_eq!(idx[&1].get_collection_id(), CollectionId(1));
    assert_eq!(idx[&2].get_id(), VideoId(2));
}

#[test]
fn index_hash_is_blake3() {
    let data = b"[{\"video_id\":1}]";
    assert_eq!(index_file_hash(data), *blake3::hash(data).as_bytes());
    assert_ne!(index_file_hash(data).to_vec(), data.to_vec());
}

#[test]
fn reload_only_on_change() {
    let data = b"index v1";
    let mut index = VideoIndex::new(&vec![entry(1, "one")], HashMap::new(), 100, index_file_hash(data));
    assert!(index.changed_index_hash(data).is_none());
    assert!(index.is_current_hash(&index_file_hash(data)));
    assert!(!index.is_current_hash(&[0u8; 32]));
    let changed = index.changed_index_hash(b"index v2").unwrap();
    assert_eq!(changed, *blake3::hash(b"index v2").as_bytes());
    index.reload_index(changed, &vec![entry(7, "seven")]);
    assert!(index.changed_index_hash(b"index v2").is_none());
    assert_eq!(index.get_index().len(), 1);
    assert!(index.get_index().contains_key(&7));
    index.add_to_index(VideoId(8), entry(8, "eight"));
    assert_eq!(index.get_index()[&8].get_title(), "eight");
}

#[test]
fn timestamps_and_saving() {
    let mut index = VideoIndex::new(&vec![], HashMap::new(), 100, [0u8; 32]);
    assert!(!index.update_timestamp(VideoId(1), 30, 110, 0));
    assert_eq!(index.get_timestamps()[&1], 30);
    assert!(!index.update_timestamp(VideoId(1), 31, 115, 0));
    assert_eq!(index.get_timestamps()[&1], 31);
    assert!(index.update_timestamp(VideoId(2), 5, 115, 1));
    assert!(index.update_timestamp(VideoId(2), 6, 116, 0));
    index.record_timestamp_save(116);
    assert!(!index.update_timestamp(VideoId(2), 7, 116, 0));
    assert_eq!(index.get_timestamps().len(), 2);
}

#[test]
fn time_stamp_records() {
    let t = VideoTimeStamp::new(VideoId(3), 77);
    assert_eq!(t.get_video_id(), VideoId(3));
    assert_eq!(t.get_timestamp(), 77);
}

#[test]
fn thumbnail_bound_and_update_params() {
    assert_eq!(rustystreamer::thumbnails::thumbnail_draw_bound(5), 4);
    assert_eq!(rustystreamer::thumbnails::thumbnail_draw_bound(2), 1);
    let e = VideoEntry::new(VideoId(9), "Title".to_string(), "file.mkv".to_string(), "mkv".to_string(), CollectionId(44));
    assert_eq!(rustystreamer::queries::update_video_entry_params(&e), vec!["Title", "file.mkv", "mkv", "44", "9"]);
    assert!(rustystreamer::queries::UPDATE_VIDEO.starts_with("UPDATE Videos SET"));
}
