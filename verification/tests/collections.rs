use std::collections::HashMap;

use rustystreamer::collection_id::{collection_id_from_column, CollectionId};
use rustystreamer::controller::{add_parent_title, collection_ancestry_ends, collection_titles};
use rustystreamer::video_collection::VideoCollection;

fn coll(id: u32, title: &str, parent: Option<u32>) -> VideoCollection {
    VideoCollection::from_row_values(CollectionId(id), title.to_string(), parent.map(CollectionId))
}

fn chain_map() -> HashMap<u32, VideoCollection> {
    let mut m = HashMap::new();
    m.insert(1, coll(1, "Series", None));
    m.insert(2, coll(2, "Season 1", Some(1)));
    m.insert(3, coll(3, "Disc A", Some(2)));
    m.insert(4, coll(4, "Orphan", Some(99)));
    m
}

#[test]
fn parent_title_chain() {
    let m = chain_map();
    assert_eq!(add_parent_title("Episode".to_string(), CollectionId(3), &m), "Series -> Season 1 -> Disc A -> Episode");
}

#[test]
fn parent_title_root_parent() {
    let m = chain_map();
    assert_eq!(add_parent_title("Season 1".to_string(), CollectionId(1), &m), "Series -> Season 1");
}

#[test]
fn parent_title_missing_parent() {
    let m = chain_map();
    assert_eq!(add_parent_title("Lost".to_string(), CollectionId(42), &m), "Lost");
    assert_eq!(add_parent_title("X".to_string(), CollectionId(4), &m), "Orphan -> X");
}

#[test]
fn titles_of_all_collections() {
    let list = vec![coll(1, "Series", None), coll(2, "Season 1", Some(1)), coll(3, "Disc A", Some(2)), coll(5, "Old", None), coll(5, "New", Some(1))];
    let t = collection_titles(list);
    assert_eq!(t.len(), 4);
    assert_eq!(t[&1], "Series");
    assert_eq!(t[&2], "Series -> Season 1");
    assert_eq!(t[&3], "Series -> Season 1 -> Disc A");
    assert_eq!(t[&5], "Series -> New");
}

#[test]
fn collection_accessors() {
    let c = VideoCollection::new("Fresh".to_string(), Some(CollectionId(8)));
    assert_eq!(c.get_id(), CollectionId(0));
    assert_eq!(c.get_title(), "Fresh");
    assert!(!c.is_root());
    assert_eq!(c.get_parent_id(), Some(CollectionId(8)));
    assert!(coll(1, "r", None).is_root());
}

#[test]
fn ids_from_integers() {
    assert_eq!(CollectionId::from(5u32), CollectionId(5));
    assert_eq!(collection_id_from_column(7), CollectionId(7));
    assert_eq!(collection_id_from_column(-1), CollectionId(u32::MAX));
    assert_eq!(collection_id_from_column(1 << 32 | 3), CollectionId(3));
    assert_eq!(rustystreamer::video_id::video_id_from_column(9), rustystreamer::video_id::VideoId(9));
    assert_eq!(rustystreamer::video_id::VideoId::from(3u32), rustystreamer::video_id::VideoId(3));
}

#[test]
fn ancestry_check() {
    let ok = vec![coll(1, "Series", None), coll(2, "Season 1", Some(1)), coll(3, "Lost", Some(77))];
    assert!(collection_ancestry_ends(&ok));
    let cyclic = vec![coll(1, "A", Some(2)), coll(2, "B", Some(1))];
    assert!(!collection_ancestry_ends(&cyclic));
    let self_parent = vec![coll(4, "Me", Some(4))];
    assert!(!collection_ancestry_ends(&self_parent));
    assert!(collection_ancestry_ends(&vec![]));
}
