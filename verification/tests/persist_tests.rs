use dbgm::background::{
    DesktopBackgroundFlags, EditInfo, OriginalMeta, FLAG_EXCLUDED, FLAG_ORIGINAL_MISSING,
    FLAG_UNEDITED,
};
use dbgm::imaging::image_dimensions;
use dbgm::keys::{CompareKey, KeyData, KeyRelation, OriginalKey};
use dbgm::persist::{
    load_source_by_id, LoadError, SavedBackgroundSet, SavedBackgroundSource,
    SavedDesktopBackground, SavedOriginalMeta, SavedSourceData, SourceLoadError,
};
use dbgm::reconcile::{ChangeResult, ConfirmChanges, ImageReading, ReconcileStep, ResultCache};
use dbgm::set::BackgroundSet;
use dbgm::sources::{
    ChangeKind, FileReading, FolderSnapshot, FolderSource, OriginalFile, SnapshotFile,
};

fn persist_png(w: u32, h: u32, seed: u8) -> Vec<u8> {
    let mut img = image::RgbaImage::new(w, h);
    for (x, y, p) in img.enumerate_pixels_mut() {
        *p = image::Rgba([seed, (x % 256) as u8, (y % 256) as u8, 255]);
    }
    let mut cur = std::io::Cursor::new(Vec::new());
    image::DynamicImage::ImageRgba8(img)
        .write_to(&mut cur, image::ImageOutputFormat::Png)
        .unwrap();
    cur.into_inner()
}

fn populated_set() -> BackgroundSet {
    let bytes = persist_png(3, 2, 1);
    let mut set = BackgroundSet::new((2, 2));
    set.set_image_folder("out".to_owned());
    set.set_name("my set".to_owned());
    let idx = set.add_source(FolderSource::new("dir".to_owned(), "pics"));
    let snap = FolderSnapshot {
        files: vec![SnapshotFile {
            filename: "a.png".to_owned(),
            reading: FileReading::Content(bytes.clone()),
        }],
    };
    let changes = set.reload_source(idx, &snap);
    let mut cache = ResultCache::new();
    cache.put(&ChangeKind::New, ChangeResult::Accept, false);
    let mut engine = ConfirmChanges::new(idx, changes, cache);
    let mut reading: Option<ImageReading> = None;
    loop {
        match engine.step(&mut set, reading.take()) {
            ReconcileStep::Done => break,
            ReconcileStep::Applied => {},
            ReconcileStep::AwaitImage(_) => {
                reading = Some(ImageReading { dims: image_dimensions(&bytes) });
            },
            _ => panic!("unexpected suspension"),
        }
    }
    set
}

#[test]
fn save_then_load_round_trips_the_set() {
    let set = populated_set();
    let saved = set.save();
    assert_eq!(saved.image_folder, "out");
    assert_eq!(saved.name, "my set");
    assert_eq!(saved.resolution, (2, 2));
    assert_eq!(saved.sources.len(), 1);
    assert_eq!(saved.sources[0].ty, "folder");
    assert_eq!(saved.sources[0].data.folder, "dir");
    assert_eq!(saved.sources[0].backgrounds.len(), 1);

    let (loaded, warnings) = BackgroundSet::load(saved).expect("the document is valid");
    assert!(warnings.is_empty());
    assert_eq!(loaded.image_folder(), Some("out"));
    assert_eq!(loaded.name(), Some("my set"));
    assert_eq!(loaded.resolution(), (2, 2));
    assert_eq!(loaded.background_count(), 1);
    let original = set.background(0).unwrap();
    let b = loaded.background(0).unwrap();
    assert_eq!(b.name, original.name);
    assert_eq!(b.location, original.location);
    assert_eq!(b.flags, original.flags);
    // keys are re-resolved through the reassembled source
    assert!(matches!(
        b.original.compare(&original.original),
        KeyRelation::SameOriginal
    ));
    // a loaded record is stale until checked against its original
    assert!(matches!(
        b.original_meta,
        OriginalMeta::Stale { last_known_size: Some((3, 2)) }
    ));
}

fn saved_background(hash: Vec<u8>, flags: u32, edit_info: Option<EditInfo>) -> SavedDesktopBackground {
    SavedDesktopBackground {
        name: "a.png".to_owned(),
        location: "dir/a.png".to_owned(),
        comments: String::new(),
        key_data: KeyData { filename: "a.png".to_owned(), hash },
        flags,
        original_meta: SavedOriginalMeta { last_known_size: Some((3, 2)) },
        edit_info,
    }
}

fn saved_set(sources: Vec<SavedBackgroundSource>) -> SavedBackgroundSet {
    SavedBackgroundSet {
        image_folder: "out".to_owned(),
        name: "my set".to_owned(),
        resolution: (2, 2),
        sources,
    }
}

fn original_file(name: &str) -> OriginalFile {
    OriginalFile {
        filename: name.to_owned(),
        path: format!("dir/{}", name),
        hash: vec![7; 32],
        mismatch: false,
    }
}

#[test]
fn unknown_source_type_yields_a_warning_and_drops_its_entries() {
    let source = SavedBackgroundSource {
        ty: "ftp".to_owned(),
        data: SavedSourceData {
            folder: "dir".to_owned(),
            name: "pics".to_owned(),
            originals: vec![original_file("a.png")],
        },
        backgrounds: vec![saved_background(vec![7; 32], FLAG_UNEDITED, None)],
    };
    let (set, warnings) = BackgroundSet::load(saved_set(vec![source])).expect("valid document");
    assert_eq!(warnings.len(), 1);
    assert!(matches!(warnings[0].error, SourceLoadError::IdNotFound));
    assert_eq!(warnings[0].source.ty, "ftp");
    assert_eq!(set.source_count(), 0);
    assert_eq!(set.background_count(), 0);
}

#[test]
fn corrupt_source_data_yields_a_deserialize_warning() {
    // two index entries under one filename do not fit the folder schema
    let source = SavedBackgroundSource {
        ty: "folder".to_owned(),
        data: SavedSourceData {
            folder: "dir".to_owned(),
            name: "pics".to_owned(),
            originals: vec![original_file("a.png"), original_file("a.png")],
        },
        backgrounds: vec![],
    };
    let (set, warnings) = BackgroundSet::load(saved_set(vec![source])).expect("valid document");
    assert_eq!(warnings.len(), 1);
    assert!(matches!(warnings[0].error, SourceLoadError::Deserialize));
    assert_eq!(set.source_count(), 0);
}

#[test]
fn one_corrupt_source_does_not_abort_the_whole_load() {
    let bad = SavedBackgroundSource {
        ty: "ftp".to_owned(),
        data: SavedSourceData {
            folder: "x".to_owned(),
            name: "x".to_owned(),
            originals: vec![],
        },
        backgrounds: vec![],
    };
    let good = SavedBackgroundSource {
        ty: "folder".to_owned(),
        data: SavedSourceData {
            folder: "dir".to_owned(),
            name: "pics".to_owned(),
            originals: vec![original_file("a.png")],
        },
        backgrounds: vec![saved_background(vec![7; 32], FLAG_UNEDITED, None)],
    };
    let (set, warnings) = BackgroundSet::load(saved_set(vec![bad, good])).expect("valid document");
    assert_eq!(warnings.len(), 1);
    assert_eq!(set.source_count(), 1);
    assert_eq!(set.background_count(), 1);
    assert_eq!(set.background(0).unwrap().name, "a.png");
}

#[test]
fn zero_resolution_refuses_the_document() {
    let mut saved = saved_set(vec![]);
    saved.resolution = (0, 100);
    assert!(matches!(
        BackgroundSet::load(saved),
        Err(LoadError::InvalidResolution)
    ));
}

#[test]
fn unassigned_flag_bits_refuse_the_document() {
    let source = SavedBackgroundSource {
        ty: "folder".to_owned(),
        data: SavedSourceData {
            folder: "dir".to_owned(),
            name: "pics".to_owned(),
            originals: vec![original_file("a.png")],
        },
        backgrounds: vec![saved_background(vec![7; 32], 0x4, None)],
    };
    assert!(matches!(
        BackgroundSet::load(saved_set(vec![source])),
        Err(LoadError::InvalidBackground)
    ));
}

#[test]
fn out_of_range_edit_refuses_the_document() {
    let edit = EditInfo { center: (-1, 0), scale: 1 };
    let source = SavedBackgroundSource {
        ty: "folder".to_owned(),
        data: SavedSourceData {
            folder: "dir".to_owned(),
            name: "pics".to_owned(),
            originals: vec![original_file("a.png")],
        },
        backgrounds: vec![saved_background(vec![7; 32], FLAG_UNEDITED, Some(edit))],
    };
    assert!(matches!(
        BackgroundSet::load(saved_set(vec![source])),
        Err(LoadError::InvalidBackground)
    ));
}

#[test]
fn key_data_of_the_wrong_shape_loads_as_an_opaque_key() {
    // a digest of the wrong width does not fit the folder key schema: the
    // record is kept, its key opaque and distinct from every live key
    let source = SavedBackgroundSource {
        ty: "folder".to_owned(),
        data: SavedSourceData {
            folder: "dir".to_owned(),
            name: "pics".to_owned(),
            originals: vec![original_file("a.png")],
        },
        backgrounds: vec![saved_background(vec![1, 2, 3], FLAG_UNEDITED, None)],
    };
    let (set, warnings) = BackgroundSet::load(saved_set(vec![source])).expect("valid document");
    assert!(warnings.is_empty());
    let b = set.background(0).unwrap();
    assert!(matches!(b.original, OriginalKey::Opaque(_)));
    assert!(matches!(
        b.original.compare(&b.original),
        KeyRelation::Distinct
    ));
}

#[test]
fn source_loader_checks_the_type_identifier_and_the_data() {
    let data = || SavedSourceData {
        folder: "dir".to_owned(),
        name: "pics".to_owned(),
        originals: vec![original_file("a.png")],
    };
    let source = load_source_by_id(&"folder".to_owned(), data()).expect("known type, valid data");
    assert_eq!(source.folder(), "dir");
    assert_eq!(source.name(), "pics");
    assert_eq!(source.original_count(), 1);
    assert!(matches!(
        load_source_by_id(&"ftp".to_owned(), data()),
        Err(SourceLoadError::IdNotFound)
    ));
    let duplicated = SavedSourceData {
        folder: "dir".to_owned(),
        name: "pics".to_owned(),
        originals: vec![original_file("a.png"), original_file("a.png")],
    };
    assert!(matches!(
        load_source_by_id(&"folder".to_owned(), duplicated),
        Err(SourceLoadError::Deserialize)
    ));
}

#[test]
fn flag_bits_round_trip() {
    let flags = DesktopBackgroundFlags {
        unedited: true,
        original_missing: false,
        excluded: true,
    };
    assert_eq!(flags.to_bits(), FLAG_UNEDITED | FLAG_EXCLUDED);
    assert_eq!(DesktopBackgroundFlags::from_bits(flags.to_bits()), Some(flags));
    assert_eq!(
        DesktopBackgroundFlags::from_bits(FLAG_ORIGINAL_MISSING),
        Some(DesktopBackgroundFlags { unedited: false, original_missing: true, excluded: false })
    );
    assert_eq!(DesktopBackgroundFlags::from_bits(0x4), None);
    assert_eq!(DesktopBackgroundFlags::from_bits(0x10), None);
}
