//! The photo set: photos found in one directory, their metadata, the merge of
//! the sidecar's metadata onto them and the plan of a save.

use crate::codec::{file_name, lemma_name_injective, photo_file_name};
use crate::errors::DScopeError;
use crate::imaging::{can_preview, decode_rgba, decoded_image, make_preview, Preview, Raster};
use crate::time::Timestamp;
use std::collections::BTreeMap;
use vstd::prelude::*;
use vstd::string::StringExecFns;

verus! {

broadcast use {vstd::std_specs::btree::group_btree_axioms, vstd::laws_cmp::group_laws_cmp};

/// Name of the sidecar file, relative to the set's directory.
pub const INFO_FILE_NAME: &'static str = "info.json";

/// What `CannotCreateImage` says of a picture that cannot have a preview.
pub const NO_PREVIEW: &'static str = "the picture cannot be scaled to a preview";

/// Where and how large a mole is on a photo, in millimetres. Each field holds
/// the bit pattern of an IEEE 754 single-precision number.
#[derive(Clone, Copy, Debug, PartialEq, Eq, Structural)]
pub struct MoleMetrics {
    pub center_x: u32,
    pub center_y: u32,
    pub diameter: u32,
}

/// Whether `bits` is the pattern of a number above zero: sign clear, not zero,
/// and no NaN (infinity counts).
pub open spec fn is_positive_bits(bits: u32) -> bool {
    0 < bits <= 0x7F80_0000
}

impl MoleMetrics {
    /// Metrics with every field at positive zero.
    pub open spec fn unset() -> MoleMetrics {
        MoleMetrics { center_x: 0, center_y: 0, diameter: 0 }
    }

    /// The diameter, if one is set: a diameter counts as set when it is above zero.
    pub fn size(&self) -> (d: Option<u32>)
        ensures
            d == if is_positive_bits(self.diameter) {
                Some(self.diameter)
            } else {
                None
            },
    {
        if 0 < self.diameter && self.diameter <= 0x7F80_0000 {
            Some(self.diameter)
        } else {
            None
        }
    }
}

impl Default for MoleMetrics {
    fn default() -> (m: MoleMetrics)
        ensures
            m == MoleMetrics::unset(),
    {
        MoleMetrics { center_x: 0, center_y: 0, diameter: 0 }
    }
}

/// Metadata of one photo.
#[derive(Debug, PartialEq)]
pub struct PhotoInfo {
    pub time: Timestamp,
    pub notes: String,
    pub mole_metrics: MoleMetrics,
}

impl PhotoInfo {
    /// Metadata of a photo taken at `time`, with no notes and no metrics.
    pub fn new(time: Timestamp) -> (info: PhotoInfo)
        ensures
            info.time == time,
            info.notes@ == Seq::<char>::empty(),
            info.mole_metrics == MoleMetrics::unset(),
    {
        PhotoInfo { time, notes: String::new(), mole_metrics: MoleMetrics::default() }
    }
}

impl Clone for PhotoInfo {
    fn clone(&self) -> (copy: PhotoInfo)
        ensures
            copy == *self,
    {
        PhotoInfo { time: self.time, notes: self.notes.clone(), mole_metrics: self.mole_metrics }
    }
}

/// One photo of a set.
#[derive(Debug, PartialEq)]
pub struct Photo {
    pub id: usize,
    pub bytes: Vec<u8>,
    pub preview: Preview,
    pub info: PhotoInfo,
}

/// What a directory entry is, as far as loading cares.
#[derive(Clone, Copy, Debug, PartialEq, Eq, Structural)]
pub enum EntryKind {
    /// A regular file.
    File,
    /// A directory.
    Directory,
    /// A symbolic link that leads to a regular file.
    LinkToFile,
    /// A symbolic link that leads anywhere else, or nowhere.
    LinkElsewhere,
}

impl EntryKind {
    /// Whether an entry of this kind can be a photo: a regular file, or a
    /// link that leads to one.
    pub fn holds_photo(&self) -> (yes: bool)
        ensures
            yes == (*self == EntryKind::File || *self == EntryKind::LinkToFile),
    {
        match self {
            EntryKind::File => true,
            EntryKind::LinkToFile => true,
            EntryKind::Directory => false,
            EntryKind::LinkElsewhere => false,
        }
    }
}

impl Photo {
    /// Whether `outcome` is what loading gives for the file `bytes` of the
    /// photo `id`, last modified at `time`, whose picture decodes to `rgba` of
    /// `width` times `height` pixels: the photo with its preview and fresh
    /// metadata, or `CannotCreateImage` under the canonical file name where the
    /// picture cannot have a preview.
    pub open spec fn made_from(
        outcome: Result<Photo, DScopeError>,
        id: usize,
        time: Timestamp,
        bytes: Vec<u8>,
        width: u32,
        height: u32,
        rgba: Seq<u8>,
    ) -> bool {
        match outcome {
            Ok(photo) => {
                &&& can_preview(width, height)
                &&& photo.id == id
                &&& photo.bytes == bytes
                &&& photo.info.time == time
                &&& photo.info.notes@ == Seq::<char>::empty()
                &&& photo.info.mole_metrics == MoleMetrics::unset()
                &&& photo.preview.wf()
                &&& photo.preview.shows(width, height, rgba)
            },
            Err(e) => {
                &&& !can_preview(width, height)
                &&& match e {
                    DScopeError::CannotCreateImage { error, file } => error@ == NO_PREVIEW@ && file@
                        == file_name(id as nat),
                    _ => false,
                }
            },
        }
    }

    /// Builds the photo `id` from its file's bytes, the file's time of last
    /// modification and the decoded picture.
    pub fn from_raster(id: usize, time: Timestamp, bytes: Vec<u8>, picture: Raster) -> (outcome:
        Result<Photo, DScopeError>)
        requires
            picture.wf(),
        ensures
            Photo::made_from(outcome, id, time, bytes, picture.width, picture.height, picture.rgba@),
    {
        match make_preview(picture) {
            Some(preview) => Ok(Photo { id, bytes, preview, info: PhotoInfo::new(time) }),
            None => Err(
                DScopeError::cannot_create_image(
                    String::from_str(NO_PREVIEW),
                    photo_file_name(id),
                ),
            ),
        }
    }

    /// Loads the photo `id` from its file's bytes and the file's time of last
    /// modification. Bytes that do not decode give `CannotDecodeImage` under
    /// the canonical file name of `id`.
    pub fn load(id: usize, time: Timestamp, bytes: Vec<u8>) -> (outcome: Result<Photo, DScopeError>)
        ensures
            match decoded_image(bytes@) {
                Some((width, height, rgba)) => Photo::made_from(
                    outcome,
                    id,
                    time,
                    bytes,
                    width,
                    height,
                    rgba,
                ),
                None => {
                    &&& outcome is Err
                    &&& outcome->Err_0 is CannotDecodeImage
                    &&& outcome->Err_0.subject()@ == file_name(id as nat)
                },
            },
    {
        match decode_rgba(&bytes) {
            Ok(picture) => Photo::from_raster(id, time, bytes, picture),
            Err(error) => Err(DScopeError::cannot_decode_image(error, photo_file_name(id))),
        }
    }
}

/// Metadata of the visit during which the photos of a set were taken.
#[derive(Debug, PartialEq)]
pub struct PhotoSetInfo {
    pub name: String,
    pub surname: String,
    pub time: Timestamp,
    pub notes: String,
}

impl PhotoSetInfo {
    /// The metadata of a fresh set: empty texts, and `now` as its time.
    pub fn starting_at(now: Timestamp) -> (info: PhotoSetInfo)
        ensures
            info.time == now,
            info.name@ == Seq::<char>::empty(),
            info.surname@ == Seq::<char>::empty(),
            info.notes@ == Seq::<char>::empty(),
    {
        PhotoSetInfo { name: String::new(), surname: String::new(), time: now, notes: String::new() }
    }
}

impl Clone for PhotoSetInfo {
    fn clone(&self) -> (copy: PhotoSetInfo)
        ensures
            copy == *self,
    {
        PhotoSetInfo {
            name: self.name.clone(),
            surname: self.surname.clone(),
            time: self.time,
            notes: self.notes.clone(),
        }
    }
}

/// What the sidecar file holds: the visit's metadata and each photo's
/// metadata under the photo's identifier.
#[derive(Debug, PartialEq)]
pub struct PhotoSetData {
    pub name: String,
    pub surname: String,
    pub time: Timestamp,
    pub notes: String,
    pub photos: BTreeMap<usize, PhotoInfo>,
}

/// The photos of one directory with the visit's metadata.
pub struct PhotoSet {
    pub path: String,
    pub photos: Vec<Photo>,
    pub info: PhotoSetInfo,
}

/// No identifier occurs twice among `photos`.
pub open spec fn distinct_ids(photos: Seq<Photo>) -> bool {
    forall|i: int, j: int| 0 <= i < j < photos.len() ==> photos[i].id != photos[j].id
}

/// Whether some photo of `photos` has the identifier `id`.
pub open spec fn has_id(photos: Seq<Photo>, id: usize) -> bool {
    exists|i: int| 0 <= i < photos.len() && #[trigger] photos[i].id == id
}

/// The metadata of a photo after the merge of sidecar entries: where the
/// sidecar has an entry under the photo's identifier, time and notes come from
/// it; the metrics stay as they are.
pub open spec fn merged_info(info: PhotoInfo, id: usize, entries: Map<usize, PhotoInfo>)
    -> PhotoInfo {
    if entries.contains_key(id) {
        PhotoInfo { time: entries[id].time, notes: entries[id].notes, mole_metrics: info.mole_metrics }
    } else {
        info
    }
}

/// A photo after the merge of sidecar entries: only its metadata can change.
pub open spec fn merged_photo(photo: Photo, entries: Map<usize, PhotoInfo>) -> Photo {
    Photo {
        id: photo.id,
        bytes: photo.bytes,
        preview: photo.preview,
        info: merged_info(photo.info, photo.id, entries),
    }
}

/// Every photo of `photos` after the merge of sidecar entries.
pub open spec fn merged_photos(photos: Seq<Photo>, entries: Map<usize, PhotoInfo>) -> Seq<Photo> {
    Seq::new(photos.len(), |i: int| merged_photo(photos[i], entries))
}

/// The metadata that a save records for `photos`: each photo's metadata under
/// its identifier; of two photos with one identifier the later one counts.
pub open spec fn info_by_id(photos: Seq<Photo>) -> Map<usize, PhotoInfo>
    decreases photos.len(),
{
    if photos.len() == 0 {
        Map::empty()
    } else {
        info_by_id(photos.drop_last()).insert(photos.last().id, photos.last().info)
    }
}

/// The position of the photo with identifier `id` among `photos`.
pub open spec fn index_of_id(photos: Seq<Photo>, id: usize) -> int
    recommends
        has_id(photos, id),
{
    choose|i: int| 0 <= i < photos.len() && #[trigger] photos[i].id == id
}

/// `kept` with `photo` added: it takes the place of the photo that has its
/// identifier, or comes last where there is none.
pub open spec fn placed(kept: Seq<Photo>, photo: Photo) -> Seq<Photo> {
    if has_id(kept, photo.id) {
        kept.update(index_of_id(kept, photo.id), photo)
    } else {
        kept.push(photo)
    }
}

/// `photos` in the order found, where of two photos with one identifier the
/// later one stands in the place of the earlier.
pub open spec fn later_wins(photos: Seq<Photo>) -> Seq<Photo>
    decreases photos.len(),
{
    if photos.len() == 0 {
        Seq::empty()
    } else {
        placed(later_wins(photos.drop_last()), photos.last())
    }
}

/// Adding a photo keeps identifiers distinct.
pub proof fn lemma_placed_distinct(kept: Seq<Photo>, photo: Photo)
    requires
        distinct_ids(kept),
    ensures
        distinct_ids(placed(kept, photo)),
        has_id(placed(kept, photo), photo.id),
        forall|id: usize| has_id(kept, id) ==> has_id(placed(kept, photo), id),
{
    let after = placed(kept, photo);
    if has_id(kept, photo.id) {
        let at = index_of_id(kept, photo.id);
        assert(after[at].id == photo.id);
        assert forall|id: usize| has_id(kept, id) implies has_id(after, id) by {
            let k = choose|k: int| 0 <= k < kept.len() && #[trigger] kept[k].id == id;
            assert(after[k].id == id);
        }
    } else {
        assert(after[kept.len() as int].id == photo.id);
        assert forall|id: usize| has_id(kept, id) implies has_id(after, id) by {
            let k = choose|k: int| 0 <= k < kept.len() && #[trigger] kept[k].id == id;
            assert(after[k].id == id);
        }
    }
}

/// With distinct identifiers, a save records each photo's metadata under the
/// photo's identifier, and nothing under any other identifier.
pub proof fn lemma_info_by_id(photos: Seq<Photo>)
    requires
        distinct_ids(photos),
    ensures
        forall|i: int|
            0 <= i < photos.len() ==> info_by_id(photos).contains_key(#[trigger] photos[i].id)
                && info_by_id(photos)[photos[i].id] == photos[i].info,
        forall|id: usize| info_by_id(photos).contains_key(id) ==> has_id(photos, id),
    decreases photos.len(),
{
    if photos.len() > 0 {
        let front = photos.drop_last();
        lemma_info_by_id(front);
        assert forall|i: int| 0 <= i < photos.len() implies info_by_id(photos).contains_key(
            #[trigger] photos[i].id,
        ) && info_by_id(photos)[photos[i].id] == photos[i].info by {
            if i < photos.len() - 1 {
                assert(front[i].id == photos[i].id);
                assert(photos[i].id != photos.last().id);
            }
        }
        assert forall|id: usize| info_by_id(photos).contains_key(id) implies has_id(photos, id) by {
            if id == photos.last().id {
                assert(photos[photos.len() - 1].id == id);
            } else {
                assert(info_by_id(photos) == info_by_id(front).insert(
                    photos.last().id,
                    photos.last().info,
                ));
                assert(info_by_id(front).contains_key(id));
                assert(has_id(front, id));
                let k = choose|k: int| 0 <= k < front.len() && #[trigger] front[k].id == id;
                assert(photos[k].id == id);
            }
        }
    }
}

/// Sidecar entries under identifiers that no photo of the set has are
/// dropped: if the sidecar lists none of the set's identifiers, the merge
/// leaves every photo as it was, and the number of photos is the same.
pub proof fn lemma_unknown_entries_ignored(before: PhotoSet, data: PhotoSetData, after: PhotoSet)
    requires
        before.merged_with(data, after),
        forall|id: usize| data.photos@.contains_key(id) ==> !has_id(before.photos@, id),
    ensures
        after.photos@ == before.photos@,
{
    assert forall|i: int| 0 <= i < before.photos@.len() implies after.photos@[i]
        == before.photos@[i] by {
        assert(has_id(before.photos@, before.photos@[i].id));
    }
    assert(after.photos@ =~= before.photos@);
}

/// A merge reads only the sidecar entries of the set's own identifiers: two
/// sidecars that agree on the visit and on those entries give the same set.
pub proof fn lemma_merge_reads_own_ids(
    before: PhotoSet,
    one: PhotoSetData,
    other: PhotoSetData,
    after_one: PhotoSet,
    after_other: PhotoSet,
)
    requires
        before.merged_with(one, after_one),
        before.merged_with(other, after_other),
        one.name == other.name,
        one.surname == other.surname,
        one.time == other.time,
        one.notes == other.notes,
        forall|id: usize|
            has_id(before.photos@, id) ==> (one.photos@.contains_key(id)
                <==> other.photos@.contains_key(id)) && (one.photos@.contains_key(id)
                ==> one.photos@[id] == other.photos@[id]),
    ensures
        after_one.photos@ == after_other.photos@,
        after_one.info == after_other.info,
        after_one.path == after_other.path,
{
    assert forall|i: int| 0 <= i < before.photos@.len() implies after_one.photos@[i]
        == after_other.photos@[i] by {
        assert(has_id(before.photos@, before.photos@[i].id));
    }
    assert(after_one.photos@ =~= after_other.photos@);
}

/// Metadata survives a save and a fresh load: merging what a save of `saved`
/// records onto any set gives the visit's metadata of `saved`, and each photo
/// of the result that shares its identifier with a photo of `saved` has that
/// photo's time and notes.
pub proof fn lemma_saved_metadata_returns(
    saved: PhotoSet,
    data: PhotoSetData,
    loaded: PhotoSet,
    merged: PhotoSet,
)
    requires
        distinct_ids(saved.photos@),
        saved.recorded_as(data),
        loaded.merged_with(data, merged),
    ensures
        merged.info == saved.info,
        forall|i: int, j: int|
            0 <= i < merged.photos@.len() && 0 <= j < saved.photos@.len() && (
            #[trigger] merged.photos@[i]).id == (#[trigger] saved.photos@[j]).id ==> {
                &&& merged.photos@[i].info.time == saved.photos@[j].info.time
                &&& merged.photos@[i].info.notes == saved.photos@[j].info.notes
            },
{
    lemma_info_by_id(saved.photos@);
    assert forall|i: int, j: int|
        0 <= i < merged.photos@.len() && 0 <= j < saved.photos@.len() && (
        #[trigger] merged.photos@[i]).id == (#[trigger] saved.photos@[j]).id implies {
        &&& merged.photos@[i].info.time == saved.photos@[j].info.time
        &&& merged.photos@[i].info.notes == saved.photos@[j].info.notes
    } by {
        assert(merged.photos@[i] == merged_photo(loaded.photos@[i], data.photos@));
        assert(data.photos@.contains_key(saved.photos@[j].id));
    }
}

impl PhotoSet {
    /// A set is well formed when no two of its photos share an identifier and
    /// each preview has a full pixel buffer.
    pub open spec fn wf(&self) -> bool {
        &&& distinct_ids(self.photos@)
        &&& forall|i: int| 0 <= i < self.photos@.len() ==> (#[trigger] self.photos@[i]).preview.wf()
    }

    /// Whether `data` is what a save of this set records.
    pub open spec fn recorded_as(&self, data: PhotoSetData) -> bool {
        &&& data.name == self.info.name
        &&& data.surname == self.info.surname
        &&& data.time == self.info.time
        &&& data.notes == self.info.notes
        &&& data.photos@ == info_by_id(self.photos@)
    }

    /// Whether `after` is this set with `data` merged onto it.
    pub open spec fn merged_with(&self, data: PhotoSetData, after: PhotoSet) -> bool {
        &&& after.path == self.path
        &&& after.info.name == data.name
        &&& after.info.surname == data.surname
        &&& after.info.time == data.time
        &&& after.info.notes == data.notes
        &&& after.photos@.len() == self.photos@.len()
        &&& forall|i: int|
            0 <= i < self.photos@.len() ==> #[trigger] after.photos@[i] == merged_photo(
                self.photos@[i],
                data.photos@,
            )
    }

    /// Merges the sidecar's content onto the set. The visit's metadata is
    /// replaced as a whole. A photo whose identifier the sidecar lists takes
    /// time and notes from there and keeps its metrics; the others stay as they
    /// are. Entries under identifiers that no photo has change nothing.
    pub fn apply_data(&mut self, data: PhotoSetData)
        ensures
            old(self).merged_with(data, *final(self)),
            old(self).wf() ==> final(self).wf(),
    {
        let PhotoSetData { name, surname, time, notes, photos: entries } = data;
        self.info.name = name;
        self.info.surname = surname;
        self.info.time = time;
        self.info.notes = notes;
        let count = self.photos.len();
        let mut i: usize = 0;
        while i < count
            invariant
                i <= count,
                count == self.photos@.len(),
                count == old(self).photos@.len(),
                self.path == old(self).path,
                self.info.name == data.name,
                self.info.surname == data.surname,
                self.info.time == data.time,
                self.info.notes == data.notes,
                entries == data.photos,
                forall|k: int|
                    0 <= k < i ==> #[trigger] self.photos@[k] == merged_photo(
                        old(self).photos@[k],
                        data.photos@,
                    ),
                forall|k: int| i <= k < count ==> #[trigger] self.photos@[k] == old(self).photos@[k],
            decreases count - i,
        {
            let id = self.photos[i].id;
            match entries.get(&id) {
                Some(entry) => {
                    self.photos[i].info.time = entry.time;
                    self.photos[i].info.notes = entry.notes.clone();
                },
                None => {},
            }
            i += 1;
        }
    }

    /// Looks for the photo with identifier `id`.
    pub fn position_of(&self, id: usize) -> (at: Option<usize>)
        ensures
            match at {
                Some(i) => {
                    &&& i < self.photos@.len()
                    &&& self.photos@[i as int].id == id
                    &&& forall|k: int| 0 <= k < i ==> self.photos@[k].id != id
                },
                None => !has_id(self.photos@, id),
            },
    {
        let mut i: usize = 0;
        while i < self.photos.len()
            invariant
                i <= self.photos@.len(),
                forall|k: int| 0 <= k < i ==> self.photos@[k].id != id,
            decreases self.photos@.len() - i,
        {
            if self.photos[i].id == id {
                return Some(i);
            }
            i += 1;
        }
        None
    }

    /// Builds the set of the directory `path` from the photos found there, in
    /// the order found. Of two photos with one identifier the later one takes
    /// the place of the earlier. The visit's metadata starts empty, with `now`
    /// as its time. A directory without photos gives `NoPhotosFound`.
    pub fn from_photos(path: String, photos: Vec<Photo>, now: Timestamp) -> (outcome: Result<
        PhotoSet,
        DScopeError,
    >)
        ensures
            match outcome {
                Ok(set) => {
                    &&& photos@.len() > 0
                    &&& set.path == path
                    &&& set.info.time == now
                    &&& set.info.name@ == Seq::<char>::empty()
                    &&& set.info.surname@ == Seq::<char>::empty()
                    &&& set.info.notes@ == Seq::<char>::empty()
                    &&& set.photos@ == later_wins(photos@)
                    &&& distinct_ids(set.photos@)
                    &&& forall|k: int|
                        0 <= k < set.photos@.len() ==> photos@.contains(#[trigger] set.photos@[k])
                    &&& forall|j: int|
                        0 <= j < photos@.len() ==> has_id(set.photos@, (#[trigger] photos@[j]).id)
                },
                Err(e) => photos@.len() == 0 && e == (DScopeError::NoPhotosFound { path }),
            },
    {
        if photos.len() == 0 {
            return Err(DScopeError::no_photos_found(path));
        }
        let mut rest = photos;
        let mut set = PhotoSet { path, photos: Vec::new(), info: PhotoSetInfo::starting_at(now) };
        let ghost mut done: int = 0;
        assert(photos@.subrange(0, 0) =~= Seq::<Photo>::empty());
        while rest.len() > 0
            invariant
                0 <= done <= photos@.len(),
                rest@ == photos@.subrange(done, photos@.len() as int),
                set.path == path,
                set.info.time == now,
                set.info.name@ == Seq::<char>::empty(),
                set.info.surname@ == Seq::<char>::empty(),
                set.info.notes@ == Seq::<char>::empty(),
                set.photos@ == later_wins(photos@.subrange(0, done)),
                distinct_ids(set.photos@),
                forall|k: int|
                    0 <= k < set.photos@.len() ==> photos@.contains(#[trigger] set.photos@[k]),
                forall|j: int| 0 <= j < done ==> has_id(set.photos@, (#[trigger] photos@[j]).id),
            decreases rest@.len(),
        {
            let photo = rest.remove(0);
            let ghost kept = set.photos@;
            proof {
                assert(photo == photos@[done]);
                assert(photos@.subrange(0, done + 1).drop_last() =~= photos@.subrange(0, done));
                assert(photos@.subrange(0, done + 1).last() == photo);
                assert(rest@ =~= photos@.subrange(done + 1, photos@.len() as int));
                lemma_placed_distinct(kept, photo);
            }
            match set.position_of(photo.id) {
                Some(at) => {
                    proof {
                        let chosen = index_of_id(kept, photo.id);
                        assert(kept[at as int].id == photo.id);
                        assert(has_id(kept, photo.id));
                        assert(chosen == at);
                    }
                    set.photos[at] = photo;
                },
                None => {
                    set.photos.push(photo);
                },
            }
            proof {
                assert(set.photos@ == placed(kept, photo));
                assert forall|k: int| 0 <= k < set.photos@.len() implies photos@.contains(
                    #[trigger] set.photos@[k],
                ) by {
                    if set.photos@[k] == photo {
                        assert(photos@[done] == photo);
                    } else {
                        assert(set.photos@[k] == kept[k]);
                    }
                }
                assert forall|j: int| 0 <= j < done + 1 implies has_id(
                    set.photos@,
                    (#[trigger] photos@[j]).id,
                ) by {
                    if j < done {
                        assert(has_id(kept, photos@[j].id));
                    }
                }
                done = done + 1;
            }
        }
        proof {
            assert(photos@.subrange(0, photos@.len() as int) =~= photos@);
        }
        Ok(set)
    }

    /// What a save writes to the sidecar: the visit's metadata and each
    /// photo's metadata under the photo's identifier.
    pub fn build_data(&self) -> (data: PhotoSetData)
        ensures
            self.recorded_as(data),
    {
        let mut entries: BTreeMap<usize, PhotoInfo> = BTreeMap::new();
        let mut i: usize = 0;
        assert(self.photos@.subrange(0, 0) =~= Seq::<Photo>::empty());
        while i < self.photos.len()
            invariant
                i <= self.photos@.len(),
                entries@ == info_by_id(self.photos@.subrange(0, i as int)),
            decreases self.photos@.len() - i,
        {
            proof {
                let upto = self.photos@.subrange(0, i + 1);
                assert(upto.drop_last() =~= self.photos@.subrange(0, i as int));
                assert(upto.last() == self.photos@[i as int]);
            }
            entries.insert(self.photos[i].id, self.photos[i].info.clone());
            i += 1;
        }
        proof {
            assert(self.photos@.subrange(0, self.photos@.len() as int) =~= self.photos@);
        }
        PhotoSetData {
            name: self.info.name.clone(),
            surname: self.info.surname.clone(),
            time: self.info.time,
            notes: self.info.notes.clone(),
            photos: entries,
        }
    }

    /// The photos whose bytes a save has to write, by position, given for each
    /// photo whether the file of its canonical name is already there: those
    /// whose file is missing, in order. A file that is there is never written.
    pub fn unsaved_photos(&self, present: &Vec<bool>) -> (missing: Vec<usize>)
        requires
            present@.len() == self.photos@.len(),
        ensures
            forall|k: int|
                0 <= k < missing@.len() ==> (#[trigger] missing@[k]) < present@.len()
                    && !present@[missing@[k] as int],
            forall|i: int| 0 <= i < present@.len() && !present@[i] ==> missing@.contains(i as usize),
            forall|k: int, l: int| 0 <= k < l < missing@.len() ==> missing@[k] < missing@[l],
    {
        let mut missing: Vec<usize> = Vec::new();
        let mut i: usize = 0;
        while i < present.len()
            invariant
                i <= present@.len(),
                forall|k: int|
                    0 <= k < missing@.len() ==> (#[trigger] missing@[k]) < i
                        && !present@[missing@[k] as int],
                forall|j: int| 0 <= j < i && !present@[j] ==> missing@.contains(j as usize),
                forall|k: int, l: int| 0 <= k < l < missing@.len() ==> missing@[k] < missing@[l],
            decreases present@.len() - i,
        {
            if !present[i] {
                let ghost before = missing@;
                missing.push(i);
                proof {
                    assert(missing@[before.len() as int] == i);
                    assert forall|j: int| 0 <= j < i + 1 && !present@[j] implies missing@.contains(
                        j as usize,
                    ) by {
                        if j < i {
                            let k = choose|k: int| 0 <= k < before.len() && before[k] == j as usize;
                            assert(missing@[k] == j as usize);
                        }
                    }
                }
            }
            i += 1;
        }
        missing
    }

    /// Points the set at the directory `path` for a save under a new place,
    /// and hands back the directory it pointed at before.
    pub fn redirect(&mut self, path: String) -> (previous: String)
        ensures
            previous == old(self).path,
            final(self).path == path,
            final(self).photos == old(self).photos,
            final(self).info == old(self).info,
    {
        let mut previous = path;
        std::mem::swap(&mut self.path, &mut previous);
        previous
    }

    /// Ends a save under a new place: the set stays at the new directory if
    /// the save went through, and is back at `previous` if it failed.
    pub fn settle(&mut self, previous: String, saved: bool)
        ensures
            final(self).path == if saved {
                old(self).path
            } else {
                previous
            },
            final(self).photos == old(self).photos,
            final(self).info == old(self).info,
    {
        if !saved {
            self.path = previous;
        }
    }

    /// The canonical file name of each photo, in the set's order. In a set
    /// with distinct identifiers no two photos share a file name.
    pub fn photo_file_names(&self) -> (names: Vec<String>)
        ensures
            names@.len() == self.photos@.len(),
            forall|i: int|
                0 <= i < names@.len() ==> (#[trigger] names@[i])@ == file_name(
                    self.photos@[i].id as nat,
                ),
            distinct_ids(self.photos@) ==> forall|i: int, j: int|
                0 <= i < j < names@.len() ==> (#[trigger] names@[i])@ != (#[trigger] names@[j])@,
    {
        let mut names: Vec<String> = Vec::new();
        let mut i: usize = 0;
        while i < self.photos.len()
            invariant
                i <= self.photos@.len(),
                names@.len() == i,
                forall|k: int|
                    0 <= k < i ==> (#[trigger] names@[k])@ == file_name(self.photos@[k].id as nat),
            decreases self.photos@.len() - i,
        {
            names.push(photo_file_name(self.photos[i].id));
            i += 1;
        }
        proof {
            if distinct_ids(self.photos@) {
                assert forall|i: int, j: int| 0 <= i < j < names@.len() implies (
                #[trigger] names@[i])@ != (#[trigger] names@[j])@ by {
                    if names@[i]@ == names@[j]@ {
                        lemma_name_injective(
                            self.photos@[i].id as nat,
                            self.photos@[j].id as nat,
                        );
                    }
                }
            }
        }
        names
    }
}

} // verus!
