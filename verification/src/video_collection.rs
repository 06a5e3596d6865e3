//! A named collection of videos, possibly nested in a parent collection.
use vstd::prelude::*;

use crate::collection_id::CollectionId;

verus! {

/// A collection of videos; a collection without parent is a root.
pub struct VideoCollection {
    collection_id: CollectionId,
    title: String,
    parent_id: Option<CollectionId>,
}

/// The abstract value of a `VideoCollection`.
pub ghost struct VideoCollectionView {
    pub collection_id: u32,
    pub title: Seq<char>,
    pub parent_id: Option<u32>,
}

/// The identifier inside an optional collection identifier.
pub open spec fn parent_view(p: Option<CollectionId>) -> Option<u32> {
    match p {
        Some(id) => Some(id.0),
        None => None,
    }
}

impl View for VideoCollection {
    type V = VideoCollectionView;

    closed spec fn view(&self) -> VideoCollectionView {
        VideoCollectionView {
            collection_id: self.collection_id.0,
            title: self.title@,
            parent_id: parent_view(self.parent_id),
        }
    }
}

impl VideoCollection {
    /// A collection with every field given, as a stored row holds it.
    pub fn from_row_values(
        collection_id: CollectionId,
        title: String,
        parent_id: Option<CollectionId>,
    ) -> (c: VideoCollection)
        ensures
            c@ == (VideoCollectionView {
                collection_id: collection_id.0,
                title: title@,
                parent_id: parent_view(parent_id),
            }),
    {
        VideoCollection { collection_id, title, parent_id }
    }

    pub fn get_id(&self) -> (id: CollectionId)
        ensures
            id.0 == self@.collection_id,
    {
        self.collection_id
    }

    pub fn get_title(&self) -> (t: &str)
        ensures
            t@ == self@.title,
    {
        self.title.as_str()
    }

    /// Whether the collection has no parent.
    pub fn is_root(&self) -> (r: bool)
        ensures
            r == (self@.parent_id is None),
    {
        self.parent_id.is_none()
    }

    pub fn get_parent_id(&self) -> (p: Option<CollectionId>)
        ensures
            parent_view(p) == self@.parent_id,
    {
        self.parent_id
    }

    /// A copy of this collection.
    pub fn duplicate(&self) -> (c: VideoCollection)
        ensures
            c == *self,
    {
        VideoCollection {
            collection_id: self.collection_id,
            title: self.title.clone(),
            parent_id: self.parent_id,
        }
    }

    /// A collection not stored yet: its identifier is 0.
    pub fn new(title: String, parent_id: Option<CollectionId>) -> (c: VideoCollection)
        ensures
            c@ == (VideoCollectionView {
                collection_id: 0,
                title: title@,
                parent_id: parent_view(parent_id),
            }),
    {
        VideoCollection { collection_id: CollectionId(0), title, parent_id }
    }
}

} // verus!
