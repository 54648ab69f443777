use dscope::errors::DScopeError;
use dscope::imaging::{make_preview, scaled_height, Preview, Raster, PREVIEW_WIDTH};
use dscope::photo_set::{
    EntryKind, MoleMetrics, Photo, PhotoInfo, PhotoSet, PhotoSetData, PhotoSetInfo, INFO_FILE_NAME,
    NO_PREVIEW,
};
use dscope::time::Timestamp;
use std::collections::BTreeMap;

fn png_bytes(width: u32, height: u32, color: [u8; 4]) -> Vec<u8> {
    let picture = image::RgbaImage::from_pixel(width, height, image::Rgba(color));
    let mut out = std::io::Cursor::new(Vec::new());
    picture.write_to(&mut out, image::ImageOutputFormat::Png).unwrap();
    out.into_inner()
}

fn plain_photo(id: usize, secs: u64, notes: &str) -> Photo {
    Photo {
        id,
        bytes: vec![id as u8],
        preview: Preview { width: 0, height: 0, rgba: Vec::new() },
        info: PhotoInfo {
            time: Timestamp::from_secs(secs),
            notes: String::from(notes),
            mole_metrics: MoleMetrics { center_x: 0, center_y: 0, diameter: 0 },
        },
    }
}

fn set_of(photos: Vec<Photo>) -> PhotoSet {
    PhotoSet::from_photos(String::from("/visits/a"), photos, Timestamp::from_secs(1000)).unwrap()
}

#[test]
fn sidecar_has_its_fixed_name() {
    assert_eq!(INFO_FILE_NAME, "info.json");
    assert_eq!(PREVIEW_WIDTH, 128);
}

#[test]
fn size_is_set_when_the_diameter_is_above_zero() {
    let with = |d: f32| MoleMetrics { center_x: 0, center_y: 0, diameter: d.to_bits() };
    assert_eq!(with(1.5).size().map(f32::from_bits), Some(1.5));
    assert_eq!(with(f32::MIN_POSITIVE).size().map(f32::from_bits), Some(f32::MIN_POSITIVE));
    assert_eq!(with(f32::INFINITY).size().map(f32::from_bits), Some(f32::INFINITY));
    assert_eq!(with(0.0).size(), None);
    assert_eq!(with(-0.0).size(), None);
    assert_eq!(with(-2.0).size(), None);
    assert_eq!(with(f32::NAN).size(), None);
    assert_eq!(with(f32::NEG_INFINITY).size(), None);
    assert_eq!(MoleMetrics::default().size(), None);
}

#[test]
fn size_agrees_with_the_comparison_of_numbers() {
    for bits in [0u32, 1, 0x3F80_0000, 0x7F7F_FFFF, 0x7F80_0000, 0x7F80_0001, 0x7FC0_0000,
        0x8000_0000, 0x8000_0001, 0xBF80_0000, 0xFF80_0000, 0xFFFF_FFFF]
    {
        let metrics = MoleMetrics { center_x: 0, center_y: 0, diameter: bits };
        assert_eq!(metrics.size().is_some(), f32::from_bits(bits) > 0.0);
    }
}

#[test]
fn new_photo_info_is_empty() {
    let info = PhotoInfo::new(Timestamp { secs: 9, nanos: 8 });
    assert_eq!(info.time, Timestamp { secs: 9, nanos: 8 });
    assert_eq!(info.notes, "");
    assert_eq!(info.mole_metrics, MoleMetrics::default());
    assert_eq!(info.clone(), info);
}

#[test]
fn fresh_visit_info_is_empty() {
    let info = PhotoSetInfo::starting_at(Timestamp::from_secs(77));
    assert_eq!(info.name, "");
    assert_eq!(info.surname, "");
    assert_eq!(info.notes, "");
    assert_eq!(info.time, Timestamp::from_secs(77));
    assert_eq!(info.clone(), info);
}

#[test]
fn entry_kinds_that_hold_photos() {
    assert!(EntryKind::File.holds_photo());
    assert!(EntryKind::LinkToFile.holds_photo());
    assert!(!EntryKind::Directory.holds_photo());
    assert!(!EntryKind::LinkElsewhere.holds_photo());
}

#[test]
fn preview_height_is_proportional() {
    assert_eq!(scaled_height(256, 128), 64);
    assert_eq!(scaled_height(128, 77), 77);
    assert_eq!(scaled_height(64, 10), 20);
    assert_eq!(scaled_height(3, 3), 128);
    assert_eq!(scaled_height(300, 200), 85);
    assert_eq!(scaled_height(1000, 1), 0);
    assert_eq!(scaled_height(1, u32::MAX), u32::MAX);
    assert_eq!(scaled_height(128, u32::MAX), u32::MAX);
    assert_eq!(scaled_height(u32::MAX, u32::MAX), 128);
}

#[test]
fn preview_of_a_picture() {
    let mut rgba = Vec::new();
    for _ in 0..(4 * 2) {
        rgba.extend_from_slice(&[10, 20, 30, 255]);
    }
    let preview = make_preview(Raster { width: 4, height: 2, rgba }).unwrap();
    assert_eq!(preview.width, 128);
    assert_eq!(preview.height, 64);
    assert_eq!(preview.rgba.len(), 4 * 128 * 64);
    assert!(preview.rgba.chunks(4).all(|px| px == [10, 20, 30, 255]));
}

#[test]
fn preview_keeps_the_rows_apart() {
    let mut rgba = Vec::new();
    for _ in 0..128 {
        rgba.extend_from_slice(&[255, 0, 0, 255]);
    }
    for _ in 0..128 {
        rgba.extend_from_slice(&[0, 0, 255, 255]);
    }
    let preview = make_preview(Raster { width: 128, height: 2, rgba: rgba.clone() }).unwrap();
    assert_eq!((preview.width, preview.height), (128, 2));
    assert_eq!(preview.rgba, rgba);
}

#[test]
fn no_preview_of_a_picture_without_pixels() {
    assert_eq!(make_preview(Raster { width: 0, height: 0, rgba: Vec::new() }), None);
    assert_eq!(make_preview(Raster { width: 0, height: 5, rgba: Vec::new() }), None);
    assert_eq!(make_preview(Raster { width: 5, height: 0, rgba: Vec::new() }), None);
}

#[test]
fn preview_of_a_very_wide_picture_has_no_rows() {
    let rgba = vec![7u8; 4 * 1000];
    let preview = make_preview(Raster { width: 1000, height: 1, rgba }).unwrap();
    assert_eq!((preview.width, preview.height), (128, 0));
    assert!(preview.rgba.is_empty());
}

#[test]
fn photo_is_loaded_from_its_bytes() {
    let bytes = png_bytes(256, 128, [1, 2, 3, 255]);
    let time = Timestamp { secs: 1_600_000_000, nanos: 5 };
    let photo = Photo::load(12, time, bytes.clone()).unwrap();
    assert_eq!(photo.id, 12);
    assert_eq!(photo.bytes, bytes);
    assert_eq!(photo.info, PhotoInfo::new(time));
    assert_eq!((photo.preview.width, photo.preview.height), (128, 64));
    assert_eq!(photo.preview.rgba.len(), 4 * 128 * 64);
    assert!(photo.preview.rgba.chunks(4).all(|px| px == [1, 2, 3, 255]));
    assert_ne!(photo.preview.rgba, bytes);
}

#[test]
fn photo_with_bad_bytes_names_the_canonical_file() {
    let outcome = Photo::load(7, Timestamp::from_secs(1), vec![0u8; 40]);
    match outcome {
        Err(DScopeError::CannotDecodeImage { file, .. }) => assert_eq!(file, "PICT0007.jpg"),
        _ => panic!("expected a decode failure"),
    }
}

#[test]
fn photo_from_an_empty_picture_cannot_be_created() {
    let picture = Raster { width: 0, height: 0, rgba: Vec::new() };
    let outcome = Photo::from_raster(3, Timestamp::from_secs(1), vec![1, 2], picture);
    match outcome {
        Err(DScopeError::CannotCreateImage { error, file }) => {
            assert_eq!(file, "PICT0003.jpg");
            assert_eq!(error, NO_PREVIEW);
        }
        _ => panic!("expected a failure to create the preview"),
    }
}

#[test]
fn set_without_photos_is_refused() {
    let outcome = PhotoSet::from_photos(String::from("/empty"), Vec::new(), Timestamp::from_secs(1));
    match outcome {
        Err(DScopeError::NoPhotosFound { path }) => assert_eq!(path, "/empty"),
        _ => panic!("expected NoPhotosFound"),
    }
}

#[test]
fn set_keeps_photos_in_the_order_found() {
    let set = set_of(vec![plain_photo(5, 1, "a"), plain_photo(2, 2, "b"), plain_photo(9, 3, "c")]);
    let ids: Vec<usize> = set.photos.iter().map(|p| p.id).collect();
    assert_eq!(ids, vec![5, 2, 9]);
    assert_eq!(set.path, "/visits/a");
    assert_eq!(set.info, PhotoSetInfo::starting_at(Timestamp::from_secs(1000)));
}

#[test]
fn later_photo_takes_the_place_of_an_earlier_with_its_id() {
    let set = set_of(vec![
        plain_photo(5, 1, "first"),
        plain_photo(2, 2, "other"),
        plain_photo(5, 3, "second"),
    ]);
    assert_eq!(set.photos.len(), 2);
    assert_eq!(set.photos[0], plain_photo(5, 3, "second"));
    assert_eq!(set.photos[1], plain_photo(2, 2, "other"));
}

#[test]
fn position_of_finds_by_identifier() {
    let set = set_of(vec![plain_photo(5, 1, ""), plain_photo(2, 2, "")]);
    assert_eq!(set.position_of(5), Some(0));
    assert_eq!(set.position_of(2), Some(1));
    assert_eq!(set.position_of(0), None);
}

fn sidecar(entries: Vec<(usize, u64, &str)>) -> PhotoSetData {
    let mut photos = BTreeMap::new();
    for (id, secs, notes) in entries {
        photos.insert(
            id,
            PhotoInfo {
                time: Timestamp::from_secs(secs),
                notes: String::from(notes),
                mole_metrics: MoleMetrics { center_x: 11, center_y: 22, diameter: 33 },
            },
        );
    }
    PhotoSetData {
        name: String::from("Ada"),
        surname: String::from("Lovelace"),
        time: Timestamp::from_secs(4242),
        notes: String::from("follow up"),
        photos,
    }
}

#[test]
fn merge_replaces_the_visit_and_overrides_time_and_notes() {
    let mut set = set_of(vec![plain_photo(0, 1, ""), plain_photo(1, 2, "")]);
    set.apply_data(sidecar(vec![(0, 777, "N")]));
    assert_eq!(set.info.name, "Ada");
    assert_eq!(set.info.surname, "Lovelace");
    assert_eq!(set.info.time, Timestamp::from_secs(4242));
    assert_eq!(set.info.notes, "follow up");
    assert_eq!(set.photos[0].info.time, Timestamp::from_secs(777));
    assert_eq!(set.photos[0].info.notes, "N");
    assert_eq!(set.photos[0].info.mole_metrics, MoleMetrics::default());
    assert_eq!(set.photos[1], plain_photo(1, 2, ""));
    assert_eq!(set.path, "/visits/a");
}

#[test]
fn merge_finds_photos_by_identifier_not_by_position() {
    let mut set = set_of(vec![plain_photo(7, 1, "seven"), plain_photo(0, 2, "zero")]);
    set.apply_data(sidecar(vec![(0, 50, "for zero"), (1, 60, "for one")]));
    assert_eq!(set.photos[0], plain_photo(7, 1, "seven"));
    assert_eq!(set.photos[1].info.notes, "for zero");
    assert_eq!(set.photos[1].info.time, Timestamp::from_secs(50));
}

#[test]
fn merge_drops_entries_of_unknown_ids() {
    let mut set = set_of(vec![plain_photo(0, 1, "a"), plain_photo(1, 2, "b")]);
    set.apply_data(sidecar(vec![(5, 9, "x"), (600, 9, "y")]));
    assert_eq!(set.photos.len(), 2);
    assert_eq!(set.photos[0], plain_photo(0, 1, "a"));
    assert_eq!(set.photos[1], plain_photo(1, 2, "b"));
    assert_eq!(set.info.name, "Ada");
}

#[test]
fn build_data_records_every_photo_under_its_id() {
    let mut set = set_of(vec![plain_photo(4, 1, "four"), plain_photo(2, 2, "two")]);
    set.info.name = String::from("Grace");
    set.photos[0].info.mole_metrics = MoleMetrics { center_x: 1, center_y: 2, diameter: 3 };
    let data = set.build_data();
    assert_eq!(data.name, "Grace");
    assert_eq!(data.surname, "");
    assert_eq!(data.time, Timestamp::from_secs(1000));
    assert_eq!(data.notes, "");
    assert_eq!(data.photos.len(), 2);
    assert_eq!(data.photos[&4], set.photos[0].info);
    assert_eq!(data.photos[&2], set.photos[1].info);
}

#[test]
fn metadata_survives_save_and_load() {
    let mut saved = set_of(vec![plain_photo(3, 10, ""), plain_photo(1, 20, "")]);
    saved.info.name = String::from("Ada");
    saved.info.surname = String::from("Lovelace");
    saved.info.notes = String::from("visit notes");
    saved.info.time = Timestamp { secs: 99, nanos: 7 };
    saved.photos[0].info.notes = String::from("three");
    saved.photos[0].info.time = Timestamp { secs: 31, nanos: 1 };
    saved.photos[1].info.notes = String::from("one");
    let data = saved.build_data();
    let mut loaded = PhotoSet::from_photos(
        String::from("/visits/a"),
        vec![plain_photo(1, 500, ""), plain_photo(3, 600, "")],
        Timestamp::from_secs(123456),
    )
    .unwrap();
    loaded.apply_data(data);
    assert_eq!(loaded.info, saved.info);
    assert_eq!(loaded.photos[0].info.notes, "one");
    assert_eq!(loaded.photos[0].info.time, Timestamp::from_secs(20));
    assert_eq!(loaded.photos[1].info.notes, "three");
    assert_eq!(loaded.photos[1].info.time, Timestamp { secs: 31, nanos: 1 });
}

#[test]
fn save_writes_no_photo_whose_file_is_there() {
    let set = set_of(vec![plain_photo(0, 1, ""), plain_photo(1, 2, ""), plain_photo(2, 3, "")]);
    assert_eq!(set.unsaved_photos(&vec![true, true, true]), Vec::<usize>::new());
}

#[test]
fn save_writes_the_photos_whose_files_are_missing() {
    let set = set_of(vec![plain_photo(0, 1, ""), plain_photo(1, 2, ""), plain_photo(2, 3, "")]);
    assert_eq!(set.unsaved_photos(&vec![false, true, false]), vec![0, 2]);
    assert_eq!(set.unsaved_photos(&vec![false, false, false]), vec![0, 1, 2]);
}

#[test]
fn photo_file_names_follow_the_set() {
    let set = set_of(vec![plain_photo(12, 1, ""), plain_photo(3, 2, "")]);
    assert_eq!(set.photo_file_names(), vec!["PICT0012.jpg", "PICT0003.jpg"]);
}

#[test]
fn save_under_a_new_place_stays_there_when_it_went_through() {
    let mut set = set_of(vec![plain_photo(1, 1, "")]);
    let previous = set.redirect(String::from("/visits/b"));
    assert_eq!(previous, "/visits/a");
    assert_eq!(set.path, "/visits/b");
    set.settle(previous, true);
    assert_eq!(set.path, "/visits/b");
    assert_eq!(set.photos.len(), 1);
}

#[test]
fn save_under_a_new_place_goes_back_when_it_failed() {
    let mut set = set_of(vec![plain_photo(1, 1, "")]);
    let previous = set.redirect(String::from("/visits/b"));
    set.settle(previous, false);
    assert_eq!(set.path, "/visits/a");
    assert_eq!(set.photos[0], plain_photo(1, 1, ""));
}

#[test]
fn merge_keeps_identifier_bytes_and_preview() {
    let bytes = png_bytes(16, 16, [5, 6, 7, 255]);
    let photo = Photo::load(0, Timestamp::from_secs(3), bytes.clone()).unwrap();
    let preview = photo.preview.rgba.clone();
    let mut set = set_of(vec![photo]);
    set.apply_data(sidecar(vec![(0, 9, "seen")]));
    assert_eq!(set.photos[0].id, 0);
    assert_eq!(set.photos[0].bytes, bytes);
    assert_eq!(set.photos[0].preview.rgba, preview);
    assert_eq!((set.photos[0].preview.width, set.photos[0].preview.height), (128, 128));
}
