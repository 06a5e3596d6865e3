//! The SQL statements of the video database, the parameters that storing
//! a collection or a video binds, and the decisions taken between queries.
use vstd::prelude::*;

use crate::text::{decimal, decimal_string, push_str};
use crate::video_collection::VideoCollection;
use crate::video_entry::VideoEntry;

verus! {

pub const SELECT_VIDEO_BY_ID: &'static str = "SELECT * FROM Videos WHERE video_id = ?1;";
pub const SELECT_VIDEOS_BY_COLLECTION: &'static str = "SELECT * FROM Videos WHERE collection_id = ?1 ORDER BY title;";
pub const SELECT_ALL_VIDEOS: &'static str = "SELECT * FROM Videos;";
pub const SELECT_VIDEOS_IN_COLLECTION: &'static str = "Select * FROM Videos WHERE collection_id = ?1;";
pub const SELECT_ALL_COLLECTIONS: &'static str = "SELECT * FROM Collections;";
pub const SELECT_ROOT_COLLECTIONS: &'static str = "SELECT * FROM Collections WHERE parent_id IS NULL ORDER BY title;";
pub const SELECT_CHILD_COLLECTIONS: &'static str = "SELECT * FROM Collections WHERE parent_id = ?1 ORDER BY title;";
pub const SELECT_COLLECTION_BY_ID: &'static str = "SELECT * FROM Collections WHERE collection_id = ?1;";
pub const SELECT_COLLECTION_BY_TITLE: &'static str = "SELECT * FROM Collections WHERE title= ?1;";
pub const SELECT_TIMESTAMP_BY_VIDEO: &'static str = "SELECT * FROM VideoTimeStamps WHERE video_id = ?1;";
pub const UPDATE_TIMESTAMP: &'static str = "UPDATE VideoTimeStamps SET timestamp = ?1 WHERE video_id = ?2";
pub const INSERT_TIMESTAMP: &'static str = "INSERT INTO VideoTimeStamps(video_id, timestamp) VALUES(?1, ?2);";
pub const INSERT_CHILD_COLLECTION: &'static str = "INSERT INTO Collections(title, parent_id) VALUES(?1, ?2);";
pub const INSERT_ROOT_COLLECTION: &'static str = "INSERT INTO Collections(title) VALUES(?1);";
pub const INSERT_VIDEO: &'static str = "INSERT INTO Videos(title, file_name, file_type, collection_id) VALUES(?1, ?2, ?3, ?4);";
pub const UPDATE_VIDEO: &'static str = "UPDATE Videos SET title = ?1, file_name = ?2, file_type = ?3, collection_id = ?4 WHERE video_id = ?5;";

/// The characters of each string.
pub open spec fn param_views(s: Seq<String>) -> Seq<Seq<char>> {
    s.map_values(|x: String| x@)
}

/// A string holding the characters of `s`.
fn copy_str(s: &str) -> (r: String)
    ensures
        r@ == s@,
{
    let mut r = String::new();
    push_str(&mut r, s);
    r
}

/// The statement that stores a new collection, and its parameters: the
/// title, and the parent's identifier in decimal when there is a parent.
pub fn insert_collection_statement(collection: &VideoCollection) -> (r: (&'static str, Vec<String>))
    ensures
        match collection@.parent_id {
            Some(p) => r.0@ == INSERT_CHILD_COLLECTION@ && param_views(r.1@) == seq![
                collection@.title,
                decimal(p as nat),
            ],
            None => r.0@ == INSERT_ROOT_COLLECTION@ && param_views(r.1@) == seq![
                collection@.title,
            ],
        },
{
    let mut params: Vec<String> = Vec::new();
    params.push(copy_str(collection.get_title()));
    match collection.get_parent_id() {
        Some(id) => {
            params.push(decimal_string(id.0 as u64));
            assert(param_views(params@) =~= seq![collection@.title, decimal(id.0 as nat)]);
            (INSERT_CHILD_COLLECTION, params)
        },
        None => {
            assert(param_views(params@) =~= seq![collection@.title]);
            (INSERT_ROOT_COLLECTION, params)
        },
    }
}

/// The parameters of `INSERT_VIDEO` for an entry: title, file name, file
/// type, and the collection identifier in decimal.
pub fn insert_video_entry_params(video_entry: &VideoEntry) -> (r: Vec<String>)
    ensures
        param_views(r@) == seq![
            video_entry@.title,
            video_entry@.file_name,
            video_entry@.file_type,
            decimal(video_entry@.collection_id as nat),
        ],
{
    let mut params: Vec<String> = Vec::new();
    params.push(copy_str(video_entry.get_title()));
    params.push(copy_str(video_entry.get_file_name()));
    params.push(copy_str(video_entry.get_file_type()));
    params.push(decimal_string(video_entry.get_collection_id().0 as u64));
    assert(param_views(params@) =~= seq![
        video_entry@.title,
        video_entry@.file_name,
        video_entry@.file_type,
        decimal(video_entry@.collection_id as nat),
    ]);
    params
}

/// The parameters of `UPDATE_VIDEO` for an entry: title, file name, file
/// type, the collection identifier in decimal, and the video identifier in
/// decimal, which selects the row.
pub fn update_video_entry_params(video_entry: &VideoEntry) -> (r: Vec<String>)
    ensures
        param_views(r@) == seq![
            video_entry@.title,
            video_entry@.file_name,
            video_entry@.file_type,
            decimal(video_entry@.collection_id as nat),
            decimal(video_entry@.video_id as nat),
        ],
{
    let mut params = insert_video_entry_params(video_entry);
    let ghost before = params@;
    params.push(decimal_string(video_entry.get_id().0 as u64));
    assert(param_views(params@) =~= param_views(before).push(decimal(video_entry@.video_id as nat)));
    params
}

/// Whether storing a playback position must insert a row: the update
/// changed none.
pub fn timestamp_needs_insert(changed_rows: usize) -> (r: bool)
    ensures
        r == (changed_rows == 0),
{
    changed_rows == 0
}

/// The next move while reading the rows of a collection to find its only
/// video: read the row found into the video seen so far, or finish with the
/// answer.
pub enum ScanStep {
    TakeRow,
    Finish(Option<VideoEntry>),
}

/// What one step of the scan does: no further row finishes with the video
/// seen so far; a second row finishes with none; a first row is taken.
pub open spec fn scan_step_spec(single: Option<VideoEntry>, row_found: bool) -> ScanStep {
    if !row_found {
        ScanStep::Finish(single)
    } else if single is Some {
        ScanStep::Finish(None)
    } else {
        ScanStep::TakeRow
    }
}

/// One step of the scan for a collection's only video.
pub fn single_row_step(single: Option<VideoEntry>, row_found: bool) -> (r: ScanStep)
    ensures
        r == scan_step_spec(single, row_found),
{
    if !row_found {
        ScanStep::Finish(single)
    } else if single.is_some() {
        ScanStep::Finish(None)
    } else {
        ScanStep::TakeRow
    }
}

/// The answer of the scan over `rows` from state `single`: the rows, one
/// step each, followed by the end of the result.
pub open spec fn run_scan(single: Option<VideoEntry>, rows: Seq<VideoEntry>) -> Option<VideoEntry>
    decreases rows.len(),
{
    match scan_step_spec(single, rows.len() > 0) {
        ScanStep::Finish(r) => r,
        ScanStep::TakeRow => run_scan(Some(rows[0]), rows.drop_first()),
    }
}

/// The scan yields the video of a collection exactly when the collection
/// holds exactly one video, and then yields that video.
pub proof fn lemma_scan_finds_single(rows: Seq<VideoEntry>)
    ensures
        run_scan(None, rows) == if rows.len() == 1 {
            Some(rows[0])
        } else {
            None::<VideoEntry>
        },
{
    if rows.len() >= 1 {
        let rest = rows.drop_first();
        if rest.len() > 0 {
            assert(run_scan(Some(rows[0]), rest) == None::<VideoEntry>);
        }
    }
}

} // verus!
