//! The in-memory index of videos read from the index file, with the
//! playback positions and the hash of the index file last read.
use vstd::prelude::*;

use std::collections::HashMap;

use crate::collection_id::CollectionId;
use crate::video_id::VideoId;

verus! {

broadcast use vstd::std_specs::hash::group_hash_axioms;

/// A video as the index file lists it.
pub struct VideoIndexEntry {
    video_id: VideoId,
    file_name: String,
    title: String,
    file_type: String,
    collection_id: CollectionId,
}

/// The abstract value of a `VideoIndexEntry`.
pub ghost struct VideoIndexEntryView {
    pub video_id: u32,
    pub file_name: Seq<char>,
    pub title: Seq<char>,
    pub file_type: Seq<char>,
    pub collection_id: u32,
}

impl View for VideoIndexEntry {
    type V = VideoIndexEntryView;

    closed spec fn view(&self) -> VideoIndexEntryView {
        VideoIndexEntryView {
            video_id: self.video_id.0,
            file_name: self.file_name@,
            title: self.title@,
            file_type: self.file_type@,
            collection_id: self.collection_id.0,
        }
    }
}

impl VideoIndexEntry {
    /// An entry with every field given.
    pub fn from_row_values(
        video_id: VideoId,
        file_name: String,
        title: String,
        collection_id: CollectionId,
        file_type: String,
    ) -> (e: VideoIndexEntry)
        ensures
            e@ == (VideoIndexEntryView {
                video_id: video_id.0,
                file_name: file_name@,
                title: title@,
                file_type: file_type@,
                collection_id: collection_id.0,
            }),
    {
        VideoIndexEntry { video_id, file_name, title, file_type, collection_id }
    }

    /// A copy of this entry.
    pub fn duplicate(&self) -> (e: VideoIndexEntry)
        ensures
            e == *self,
    {
        VideoIndexEntry {
            video_id: self.video_id,
            file_name: self.file_name.clone(),
            title: self.title.clone(),
            file_type: self.file_type.clone(),
            collection_id: self.collection_id,
        }
    }

    pub fn get_id(&self) -> (id: VideoId)
        ensures
            id.0 == self@.video_id,
    {
        self.video_id
    }

    pub fn get_title(&self) -> (t: &str)
        ensures
            t@ == self@.title,
    {
        self.title.as_str()
    }

    pub fn get_file_name(&self) -> (f: &str)
        ensures
            f@ == self@.file_name,
    {
        self.file_name.as_str()
    }

    pub fn get_file_type(&self) -> (f: &str)
        ensures
            f@ == self@.file_type,
    {
        self.file_type.as_str()
    }

    pub fn get_collection_id(&self) -> (id: CollectionId)
        ensures
            id.0 == self@.collection_id,
    {
        self.collection_id
    }
}

/// The map from identifier to entry that a list of entries gives when the
/// first entry with an identifier is kept and later ones are ignored.
pub open spec fn first_entry_map(s: Seq<VideoIndexEntry>) -> Map<u32, VideoIndexEntry>
    decreases s.len(),
{
    if s.len() == 0 {
        Map::empty()
    } else {
        let m = first_entry_map(s.drop_last());
        if m.contains_key(s.last()@.video_id) {
            m
        } else {
            m.insert(s.last()@.video_id, s.last())
        }
    }
}

/// The index holds exactly the identifiers of the list, and for each the
/// first entry of the list that has it.
pub proof fn lemma_first_entry_wins(s: Seq<VideoIndexEntry>, k: u32)
    ensures
        first_entry_map(s).contains_key(k) <==> exists|i: int|
            0 <= i < s.len() && #[trigger] s[i]@.video_id == k,
        forall|i: int|
            0 <= i < s.len() && #[trigger] s[i]@.video_id == k && (forall|j: int|
                0 <= j < i ==> s[j]@.video_id != k) ==> first_entry_map(s)[k] == s[i],
    decreases s.len(),
{
    if s.len() > 0 {
        let t = s.drop_last();
        let n = s.len() - 1;
        lemma_first_entry_wins(t, k);
        assert forall|i: int| 0 <= i < t.len() implies #[trigger] t[i] == s[i] by {}
        if first_entry_map(s).contains_key(k) {
            if first_entry_map(t).contains_key(k) {
                let x = choose|x: int| 0 <= x < t.len() && #[trigger] t[x]@.video_id == k;
                assert(s[x]@.video_id == k);
            } else {
                assert(s[n]@.video_id == k);
            }
        }
        if exists|i: int| 0 <= i < s.len() && #[trigger] s[i]@.video_id == k {
            let i = choose|i: int| 0 <= i < s.len() && #[trigger] s[i]@.video_id == k;
            if i < n {
                assert(t[i]@.video_id == k);
            }
        }
        assert forall|i: int|
            0 <= i < s.len() && #[trigger] s[i]@.video_id == k && (forall|j: int|
                0 <= j < i ==> s[j]@.video_id != k) implies first_entry_map(s)[k] == s[i] by {
            if i < n {
                assert(t[i]@.video_id == k);
                assert forall|j: int| 0 <= j < i implies t[j]@.video_id != k by {
                    assert(t[j] == s[j]);
                }
                assert(first_entry_map(t).contains_key(k));
            } else {
                if first_entry_map(t).contains_key(k) {
                    let x = choose|x: int| 0 <= x < t.len() && #[trigger] t[x]@.video_id == k;
                    assert(s[x]@.video_id == k);
                }
            }
        }
    }
}

/// The index of `entries`: the first entry listed for each identifier.
pub fn index_from_entries(entries: &Vec<VideoIndexEntry>) -> (r: HashMap<u32, VideoIndexEntry>)
    ensures
        r@ == first_entry_map(entries@),
{
    let n = entries.len();
    let mut map: HashMap<u32, VideoIndexEntry> = HashMap::new();
    let mut i: usize = 0;
    while i < n
        invariant
            n == entries@.len(),
            i <= n,
            map@ == first_entry_map(entries@.take(i as int)),
        decreases n - i,
    {
        let entry = &entries[i];
        let id = entry.get_id().0;
        assert(entries@.take(i + 1).drop_last() =~= entries@.take(i as int));
        if !map.contains_key(&id) {
            map.insert(id, entry.duplicate());
        }
        i += 1;
    }
    assert(entries@.take(n as int) =~= entries@);
    map
}

/// What `blake3::hash` computes for a sequence of bytes.
pub uninterp spec fn blake3_hash(data: Seq<u8>) -> Seq<u8>;

/// `blake3::hash`: its 32-byte digest of `data`, named by `blake3_hash`.
#[verifier::external_body]
fn blake3_digest(data: &[u8]) -> (r: [u8; 32])
    ensures
        r@ == blake3_hash(data@),
{
    *blake3::hash(data).as_bytes()
}

/// The hash of the contents of the index file.
pub fn index_file_hash(index_file: &[u8]) -> (r: [u8; 32])
    ensures
        r@ == blake3_hash(index_file@),
{
    blake3_digest(index_file)
}

/// Whether the playback positions are due to be saved: more than fifteen
/// seconds have passed since the last save, the time given as whole
/// seconds and nanoseconds since the epoch.
pub open spec fn save_due(last_save: u64, now_secs: u64, now_nanos: u32) -> bool {
    now_secs - last_save > 15 || (now_secs - last_save == 15 && now_nanos > 0)
}

/// The positions are due to be saved exactly when more than fifteen
/// seconds have passed since the last save, counting nanoseconds; so a
/// longer pause is always due when a shorter one is.
pub proof fn lemma_save_due_elapsed(
    last_save: u64,
    now_secs: u64,
    now_nanos: u32,
    later_secs: u64,
    later_nanos: u32,
)
    requires
        last_save <= now_secs,
        now_nanos < 1_000_000_000,
        later_nanos < 1_000_000_000,
    ensures
        save_due(last_save, now_secs, now_nanos) <==> (now_secs - last_save) * 1_000_000_000
            + now_nanos > 15 * 1_000_000_000,
        now_secs - last_save > 15 ==> save_due(last_save, now_secs, now_nanos),
        now_secs - last_save < 15 ==> !save_due(last_save, now_secs, now_nanos),
        save_due(last_save, now_secs, now_nanos) && (now_secs < later_secs || (now_secs
            == later_secs && now_nanos <= later_nanos)) ==> save_due(
            last_save,
            later_secs,
            later_nanos,
        ),
{
}

/// The index of videos and the playback positions, with the time of the
/// last save of the positions and the hash of the index file last read.
pub struct VideoIndex {
    video_index: HashMap<u32, VideoIndexEntry>,
    timestamps: HashMap<u32, u32>,
    last_timestamp_save: u64,
    last_video_index_hash: [u8; 32],
}

/// The abstract value of a `VideoIndex`.
pub ghost struct VideoIndexView {
    pub index: Map<u32, VideoIndexEntry>,
    pub timestamps: Map<u32, u32>,
    pub last_timestamp_save: u64,
    pub last_video_index_hash: Seq<u8>,
}

impl View for VideoIndex {
    type V = VideoIndexView;

    closed spec fn view(&self) -> VideoIndexView {
        VideoIndexView {
            index: self.video_index@,
            timestamps: self.timestamps@,
            last_timestamp_save: self.last_timestamp_save,
            last_video_index_hash: self.last_video_index_hash@,
        }
    }
}

impl VideoIndex {
    /// The index of `entries` with the given positions, started at time
    /// `now` (seconds since the epoch) from an index file of hash `hash`.
    pub fn new(
        entries: &Vec<VideoIndexEntry>,
        timestamps: HashMap<u32, u32>,
        now: u64,
        hash: [u8; 32],
    ) -> (r: VideoIndex)
        ensures
            r@ == (VideoIndexView {
                index: first_entry_map(entries@),
                timestamps: timestamps@,
                last_timestamp_save: now,
                last_video_index_hash: hash@,
            }),
    {
        VideoIndex {
            video_index: index_from_entries(entries),
            timestamps,
            last_timestamp_save: now,
            last_video_index_hash: hash,
        }
    }

    pub fn get_index(&self) -> (r: &HashMap<u32, VideoIndexEntry>)
        ensures
            r@ == self@.index,
    {
        &self.video_index
    }

    /// Records `hash` as the hash of the index file last read.
    pub fn set_index(&mut self, hash: [u8; 32])
        ensures
            final(self)@ == (VideoIndexView { last_video_index_hash: hash@, ..old(self)@ }),
    {
        self.last_video_index_hash = hash;
    }

    /// Whether `hash` is the hash of the index file last read.
    pub fn is_current_hash(&self, hash: &[u8; 32]) -> (r: bool)
        ensures
            r == (hash@ == self@.last_video_index_hash),
    {
        let mut i: usize = 0;
        while i < 32
            invariant
                i <= 32,
                forall|j: int| 0 <= j < i ==> hash@[j] == self.last_video_index_hash@[j],
            decreases 32 - i,
        {
            if hash[i] != self.last_video_index_hash[i] {
                assert(hash@[i as int] != self@.last_video_index_hash[i as int]);
                return false;
            }
            i += 1;
        }
        assert(hash@ =~= self@.last_video_index_hash);
        true
    }

    /// The hash of the index file when it differs from the one last read,
    /// that is, when the index must be reloaded; `None` otherwise.
    pub fn changed_index_hash(&self, index_file: &[u8]) -> (r: Option<[u8; 32]>)
        ensures
            blake3_hash(index_file@) == self@.last_video_index_hash ==> r is None,
            blake3_hash(index_file@) != self@.last_video_index_hash ==> (r matches Some(h)
                && h@ == blake3_hash(index_file@)),
    {
        let hash = index_file_hash(index_file);
        if self.is_current_hash(&hash) {
            None
        } else {
            Some(hash)
        }
    }

    /// Reloads the index from the entries of the index file and records
    /// the file's hash.
    pub fn reload_index(&mut self, hash: [u8; 32], entries: &Vec<VideoIndexEntry>)
        ensures
            final(self)@ == (VideoIndexView {
                index: first_entry_map(entries@),
                last_video_index_hash: hash@,
                ..old(self)@
            }),
    {
        self.set_index(hash);
        self.video_index = index_from_entries(entries);
    }

    /// Adds `entry` under `key`, replacing any entry there.
    pub fn add_to_index(&mut self, key: VideoId, entry: VideoIndexEntry)
        ensures
            final(self)@ == (VideoIndexView {
                index: old(self)@.index.insert(key.0, entry),
                ..old(self)@
            }),
    {
        self.video_index.insert(key.0, entry);
    }

    pub fn get_timestamps(&self) -> (r: &HashMap<u32, u32>)
        ensures
            r@ == self@.timestamps,
    {
        &self.timestamps
    }

    /// Stores playback position `value` of video `key` at the time given as
    /// whole seconds and nanoseconds since the epoch, and tells whether the
    /// positions are due to be saved.
    pub fn update_timestamp(&mut self, key: VideoId, value: u32, now_secs: u64, now_nanos: u32) -> (r:
        bool)
        requires
            old(self)@.last_timestamp_save <= now_secs,
        ensures
            final(self)@ == (VideoIndexView {
                timestamps: old(self)@.timestamps.insert(key.0, value),
                ..old(self)@
            }),
            r == save_due(old(self)@.last_timestamp_save, now_secs, now_nanos),
    {
        self.timestamps.insert(key.0, value);
        let elapsed = now_secs - self.last_timestamp_save;
        elapsed > 15 || (elapsed == 15 && now_nanos > 0)
    }

    /// When the positions were last saved, in seconds since the epoch.
    pub fn get_last_timestamp_save(&self) -> (r: u64)
        ensures
            r == self@.last_timestamp_save,
    {
        self.last_timestamp_save
    }

    /// Records that the positions were saved at `now_secs`.
    pub fn record_timestamp_save(&mut self, now_secs: u64)
        ensures
            final(self)@ == (VideoIndexView { last_timestamp_save: now_secs, ..old(self)@ }),
    {
        self.last_timestamp_save = now_secs;
    }
}

/// A stored position is read back as written, and the positions of other
/// videos are unchanged.
pub proof fn lemma_timestamp_read_after_write(
    before: VideoIndexView,
    after: VideoIndexView,
    key: u32,
    value: u32,
    other: u32,
)
    requires
        after.timestamps == before.timestamps.insert(key, value),
    ensures
        after.timestamps.contains_key(key),
        after.timestamps[key] == value,
        other != key ==> after.timestamps.contains_key(other) == before.timestamps.contains_key(
            other,
        ),
        other != key && before.timestamps.contains_key(other) ==> after.timestamps[other]
            == before.timestamps[other],
{
}

} // verus!
