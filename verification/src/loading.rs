//! Loading a photo set from what a directory listing holds: which entries
//! are photos, which failure ends the load, and what the set is made of.

use crate::codec::{file_name, is_photo_name, numeral_value, photo_file_id};
use crate::errors::DScopeError;
use crate::imaging::{can_preview, decoded_image};
use crate::photo_set::{
    later_wins, merged_photos, EntryKind, Photo, PhotoSet, PhotoSetData, NO_PREVIEW,
};
use crate::time::Timestamp;
use vstd::prelude::*;

verus! {

/// One entry of a directory: its name, what it is, when it was last modified
/// and the bytes it holds (empty for what is no file).
#[derive(Debug, PartialEq)]
pub struct ScannedEntry {
    pub name: String,
    pub kind: EntryKind,
    pub modified: Timestamp,
    pub bytes: Vec<u8>,
}

impl ScannedEntry {
    /// Whether this entry is taken for a photo: it is a regular file, or a
    /// link to one, and its name is a photo file name.
    pub open spec fn is_wanted(&self) -> bool {
        (self.kind == EntryKind::File || self.kind == EntryKind::LinkToFile) && is_photo_name(
            self.name@,
        )
    }

    /// The identifier in this entry's name.
    pub open spec fn id(&self) -> usize
        recommends
            is_photo_name(self.name@),
    {
        numeral_value(self.name@) as usize
    }

    /// Whether this entry's bytes decode to a picture that can have a preview.
    pub open spec fn loads(&self) -> bool {
        match decoded_image(self.bytes@) {
            Some((width, height, _)) => can_preview(width, height),
            None => false,
        }
    }

    /// Whether `photo` is what loading makes of this entry.
    pub open spec fn gives(&self, photo: Photo) -> bool {
        match decoded_image(self.bytes@) {
            Some((width, height, rgba)) => Photo::made_from(
                Ok(photo),
                self.id(),
                self.modified,
                self.bytes,
                width,
                height,
                rgba,
            ),
            None => false,
        }
    }

    /// Whether `error` is the failure of loading this entry: `CannotDecodeImage`
    /// for bytes that do not decode, `CannotCreateImage` for a picture without
    /// a preview, either under the canonical file name of the identifier.
    pub open spec fn fails_with(&self, error: DScopeError) -> bool {
        &&& !self.loads()
        &&& error.subject()@ == file_name(self.id() as nat)
        &&& if decoded_image(self.bytes@).is_none() {
            error is CannotDecodeImage
        } else {
            match error {
                DScopeError::CannotCreateImage { error, .. } => error@ == NO_PREVIEW@,
                _ => false,
            }
        }
    }

    /// The identifier under which this entry is taken for a photo, if it is.
    pub fn wanted_id(&self) -> (id: Option<usize>)
        ensures
            id.is_some() == self.is_wanted(),
            id.is_some() ==> id.unwrap() == self.id(),
    {
        if self.kind.holds_photo() {
            photo_file_id(self.name.as_str())
        } else {
            None
        }
    }
}

/// The entries of a listing that are taken for photos, in the listing's order.
pub open spec fn wanted_entries(entries: Seq<ScannedEntry>) -> Seq<ScannedEntry>
    decreases entries.len(),
{
    if entries.len() == 0 {
        Seq::empty()
    } else if entries.last().is_wanted() {
        wanted_entries(entries.drop_last()).push(entries.last())
    } else {
        wanted_entries(entries.drop_last())
    }
}

/// Whether `photos` are the photos of the wanted entries of `entries`, one
/// for one and in order.
pub open spec fn photos_of(entries: Seq<ScannedEntry>, photos: Seq<Photo>) -> bool {
    &&& photos.len() == wanted_entries(entries).len()
    &&& forall|k: int|
        0 <= k < photos.len() ==> (#[trigger] wanted_entries(entries)[k]).gives(photos[k])
}

/// Whether `error` ends the scan of `entries`: it is the failure of the first
/// wanted entry that does not load.
pub open spec fn scan_fails_with(entries: Seq<ScannedEntry>, error: DScopeError) -> bool {
    exists|at: int|
        {
            &&& 0 <= at < entries.len()
            &&& (#[trigger] entries[at]).is_wanted()
            &&& entries[at].fails_with(error)
            &&& forall|j: int|
                0 <= j < at && (#[trigger] entries[j]).is_wanted() ==> entries[j].loads()
        }
}

/// Loads the photos of a listing, in the listing's order. Entries that are
/// not taken for photos are passed over; the first wanted entry that does not
/// load ends the scan with its failure.
pub fn load_photos(entries: Vec<ScannedEntry>) -> (outcome: Result<Vec<Photo>, DScopeError>)
    ensures
        match outcome {
            Ok(photos) => {
                &&& photos_of(entries@, photos@)
                &&& forall|j: int|
                    0 <= j < entries@.len() && (#[trigger] entries@[j]).is_wanted()
                        ==> entries@[j].loads()
            },
            Err(error) => scan_fails_with(entries@, error),
        },
{
    let mut rest = entries;
    let mut photos: Vec<Photo> = Vec::new();
    let ghost mut done: int = 0;
    assert(entries@.subrange(0, 0) =~= Seq::<ScannedEntry>::empty());
    while rest.len() > 0
        invariant
            0 <= done <= entries@.len(),
            rest@ == entries@.subrange(done, entries@.len() as int),
            photos_of(entries@.subrange(0, done), photos@),
            forall|j: int|
                0 <= j < done && (#[trigger] entries@[j]).is_wanted() ==> entries@[j].loads(),
        decreases rest@.len(),
    {
        let entry = rest.remove(0);
        let ghost seen = entries@.subrange(0, done);
        let ghost upto = entries@.subrange(0, done + 1);
        proof {
            assert(entry == entries@[done]);
            assert(upto.drop_last() =~= seen);
            assert(upto.last() == entry);
            assert(rest@ =~= entries@.subrange(done + 1, entries@.len() as int));
        }
        match entry.wanted_id() {
            Some(id) => {
                let ScannedEntry { modified, bytes, .. } = entry;
                match Photo::load(id, modified, bytes) {
                    Ok(photo) => {
                        photos.push(photo);
                        proof {
                            assert(wanted_entries(upto) == wanted_entries(seen).push(entry));
                            assert(entry.gives(photo));
                            assert forall|k: int| 0 <= k < photos@.len() implies (
                            #[trigger] wanted_entries(upto)[k]).gives(photos@[k]) by {
                                if k < photos@.len() - 1 {
                                    assert(wanted_entries(upto)[k] == wanted_entries(seen)[k]);
                                }
                            }
                        }
                    },
                    Err(error) => {
                        proof {
                            assert(entries@[done].is_wanted());
                            assert(entries@[done].fails_with(error));
                        }
                        return Err(error);
                    },
                }
            },
            None => {
                proof {
                    assert(wanted_entries(upto) == wanted_entries(seen));
                }
            },
        }
        proof {
            done = done + 1;
        }
    }
    proof {
        assert(entries@.subrange(0, entries@.len() as int) =~= entries@);
    }
    Ok(photos)
}

impl PhotoSet {
    /// Whether `outcome` is what loading the directory `path` gives, where
    /// `is_dir` says whether it is a directory, `entries` is its listing, `now`
    /// the time of loading and `sidecar` the parsed sidecar file if there is
    /// one. In order: a path that is no directory gives `ExpectedDirectory`;
    /// the first wanted entry that does not load gives its failure; a listing
    /// without wanted entries gives `NoPhotosFound`; otherwise the set holds
    /// the photos of the wanted entries, a later one in place of an earlier
    /// one with its identifier, with the sidecar merged onto fresh metadata.
    pub open spec fn loaded_from(
        outcome: Result<PhotoSet, DScopeError>,
        path: String,
        is_dir: bool,
        entries: Seq<ScannedEntry>,
        now: Timestamp,
        sidecar: Option<PhotoSetData>,
    ) -> bool {
        match outcome {
            Err(error) => {
                if !is_dir {
                    error == (DScopeError::ExpectedDirectory { path })
                } else if wanted_entries(entries).len() == 0 {
                    error == (DScopeError::NoPhotosFound { path })
                } else {
                    scan_fails_with(entries, error)
                }
            },
            Ok(set) => {
                &&& is_dir
                &&& wanted_entries(entries).len() > 0
                &&& forall|j: int|
                    0 <= j < entries.len() && (#[trigger] entries[j]).is_wanted()
                        ==> entries[j].loads()
                &&& set.path == path
                &&& set.wf()
                &&& exists|found: Seq<Photo>|
                    {
                        &&& #[trigger] photos_of(entries, found)
                        &&& match sidecar {
                            Some(data) => {
                                &&& set.info.name == data.name
                                &&& set.info.surname == data.surname
                                &&& set.info.time == data.time
                                &&& set.info.notes == data.notes
                                &&& set.photos@ == merged_photos(later_wins(found), data.photos@)
                            },
                            None => {
                                &&& set.photos@ == later_wins(found)
                                &&& set.info.time == now
                                &&& set.info.name@ == Seq::<char>::empty()
                                &&& set.info.surname@ == Seq::<char>::empty()
                                &&& set.info.notes@ == Seq::<char>::empty()
                            },
                        }
                    }
            },
        }
    }

    /// Loads the set of the directory `path` from what was read there:
    /// whether it is a directory, its listing, and the parsed sidecar file if
    /// there is one. `now` becomes the time of a visit without sidecar.
    pub fn from_listing(
        path: String,
        is_dir: bool,
        entries: Vec<ScannedEntry>,
        now: Timestamp,
        sidecar: Option<PhotoSetData>,
    ) -> (outcome: Result<PhotoSet, DScopeError>)
        ensures
            PhotoSet::loaded_from(outcome, path, is_dir, entries@, now, sidecar),
    {
        if !is_dir {
            return Err(DScopeError::expected_directory(path));
        }
        let photos = match load_photos(entries) {
            Ok(photos) => photos,
            Err(error) => {
                proof {
                    let at = choose|at: int|
                        {
                            &&& 0 <= at < entries@.len()
                            &&& (#[trigger] entries@[at]).is_wanted()
                            &&& entries@[at].fails_with(error)
                            &&& forall|j: int|
                                0 <= j < at && (#[trigger] entries@[j]).is_wanted()
                                    ==> entries@[j].loads()
                        };
                    lemma_wanted_entry_counts(entries@, at);
                }
                return Err(error);
            },
        };
        let mut set = match PhotoSet::from_photos(path, photos, now) {
            Ok(set) => set,
            Err(error) => {
                return Err(error);
            },
        };
        proof {
            assert forall|i: int| 0 <= i < set.photos@.len() implies (
            #[trigger] set.photos@[i]).preview.wf() by {
                let photo = set.photos@[i];
                assert(photos@.contains(photo));
                let k = choose|k: int| 0 <= k < photos@.len() && photos@[k] == photo;
                assert(wanted_entries(entries@)[k].gives(photos@[k]));
            }
            assert(set.wf());
        }
        match sidecar {
            Some(data) => {
                let ghost before = set.photos@;
                set.apply_data(data);
                proof {
                    assert(set.photos@ =~= merged_photos(before, data.photos@));
                }
            },
            None => {},
        }
        proof {
            assert(photos_of(entries@, photos@));
        }
        Ok(set)
    }
}

/// A listing with a wanted entry has wanted entries.
pub proof fn lemma_wanted_entry_counts(entries: Seq<ScannedEntry>, at: int)
    requires
        0 <= at < entries.len(),
        entries[at].is_wanted(),
    ensures
        wanted_entries(entries).len() > 0,
    decreases entries.len(),
{
    if at < entries.len() - 1 {
        lemma_wanted_entry_counts(entries.drop_last(), at);
    }
}

} // verus!
