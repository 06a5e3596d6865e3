//! A categorized video as the database stores it.
use vstd::prelude::*;

use crate::collection_id::CollectionId;
use crate::video_id::VideoId;

verus! {

/// A video stored in the database: its file, its title, and the
/// collection that it belongs to.
#[derive(Clone)]
pub struct VideoEntry {
    video_id: VideoId,
    file_name: String,
    title: String,
    file_type: String,
    collection_id: CollectionId,
}

/// The abstract value of a `VideoEntry`.
pub ghost struct VideoEntryView {
    pub video_id: u32,
    pub file_name: Seq<char>,
    pub title: Seq<char>,
    pub file_type: Seq<char>,
    pub collection_id: u32,
}

impl View for VideoEntry {
    type V = VideoEntryView;

    closed spec fn view(&self) -> VideoEntryView {
        VideoEntryView {
            video_id: self.video_id.0,
            file_name: self.file_name@,
            title: self.title@,
            file_type: self.file_type@,
            collection_id: self.collection_id.0,
        }
    }
}

impl VideoEntry {
    /// An entry with the given fields.
    pub fn new(
        video_id: VideoId,
        title: String,
        file_name: String,
        file_type: String,
        collection_id: CollectionId,
    ) -> (e: VideoEntry)
        ensures
            e@ == (VideoEntryView {
                video_id: video_id.0,
                file_name: file_name@,
                title: title@,
                file_type: file_type@,
                collection_id: collection_id.0,
            }),
    {
        VideoEntry { video_id, file_name, title, file_type, collection_id }
    }

    pub fn get_id(&self) -> (id: VideoId)
        ensures
            id.0 == self@.video_id,
    {
        self.video_id
    }

    pub fn get_title(&self) -> (t: &str)
        ensures
            t@ == self@.title,
    {
        self.title.as_str()
    }

    pub fn get_file_name(&self) -> (f: &str)
        ensures
            f@ == self@.file_name,
    {
        self.file_name.as_str()
    }

    pub fn get_file_type(&self) -> (f: &str)
        ensures
            f@ == self@.file_type,
    {
        self.file_type.as_str()
    }

    pub fn get_collection_id(&self) -> (id: CollectionId)
        ensures
            id.0 == self@.collection_id,
    {
        self.collection_id
    }
}

} // verus!
