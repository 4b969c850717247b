use dbgm::background::OriginalMeta;
use dbgm::imaging::image_dimensions;
use dbgm::keys::{CompareKey, FileKey, KeyData, KeyRelation, OriginalKey};
use dbgm::reconcile::{
    ChangeResult, ConfirmChanges, ImageReading, ReconcileError, ReconcileStep, ResultCache,
};
use dbgm::set::BackgroundSet;
use dbgm::sources::{
    ChangeKind, FileReading, FolderSnapshot, FolderSource, OriginalChange, SnapshotFile,
};

fn engine_png(w: u32, h: u32, seed: u8) -> Vec<u8> {
    let mut img = image::RgbaImage::new(w, h);
    for (x, y, p) in img.enumerate_pixels_mut() {
        *p = image::Rgba([seed, (x % 256) as u8, (y % 256) as u8, 255]);
    }
    let mut cur = std::io::Cursor::new(Vec::new());
    image::DynamicImage::ImageRgba8(img)
        .write_to(&mut cur, image::ImageOutputFormat::Png)
        .unwrap();
    cur.into_inner()
}

fn folder_snap(files: &[(&str, &Vec<u8>)]) -> FolderSnapshot {
    FolderSnapshot {
        files: files
            .iter()
            .map(|(name, bytes)| SnapshotFile {
                filename: (*name).to_owned(),
                reading: FileReading::Content((*bytes).clone()),
            })
            .collect(),
    }
}

/// Run the engine to completion, reading images from the given files, the
/// way a caller would around the suspension points.
fn drive(engine: &mut ConfirmChanges, set: &mut BackgroundSet, files: &[(&str, &Vec<u8>)]) {
    let mut reading: Option<ImageReading> = None;
    loop {
        match engine.step(set, reading.take()) {
            ReconcileStep::Done => break,
            ReconcileStep::Applied => {},
            ReconcileStep::AwaitImage(key) => {
                let name = match key {
                    OriginalKey::Folder(k) => k.filename,
                    OriginalKey::Opaque(d) => d.filename,
                };
                let dims = files
                    .iter()
                    .find(|(n, _)| *n == name)
                    .and_then(|(_, bytes)| image_dimensions(bytes));
                reading = Some(ImageReading { dims });
            },
            ReconcileStep::AwaitDecision => panic!("no cached decision"),
            ReconcileStep::Fatal(e) => panic!("fatal reconcile error: {:?}", e),
        }
    }
}

fn accepting_cache(kind: ChangeKind, result: ChangeResult) -> ResultCache {
    let mut cache = ResultCache::new();
    cache.put(&kind, result, false);
    cache
}

fn set_with_one_image(bytes: &Vec<u8>) -> (BackgroundSet, usize) {
    let mut set = BackgroundSet::new((2, 2));
    let idx = set.add_source(FolderSource::new("dir".to_owned(), "pics"));
    let changes = set.reload_source(idx, &folder_snap(&[("a.png", bytes)]));
    let mut engine = ConfirmChanges::new(
        idx,
        changes,
        accepting_cache(ChangeKind::New, ChangeResult::Accept),
    );
    drive(&mut engine, &mut set, &[("a.png", bytes)]);
    (set, idx)
}

#[test]
fn accepted_discovery_creates_one_unedited_record() {
    let bytes = engine_png(3, 2, 1);
    let (set, _) = set_with_one_image(&bytes);
    assert_eq!(set.background_count(), 1);
    let b = set.background(0).expect("one record");
    assert_eq!(b.name, "a.png");
    assert_eq!(b.location, "dir/a.png");
    assert!(b.flags.unedited);
    assert!(!b.flags.original_missing);
    assert!(!b.flags.excluded);
    assert!(matches!(b.original_meta, OriginalMeta::Known { size: (3, 2) }));
}

#[test]
fn rejected_discovery_is_added_but_excluded() {
    // rejecting a discovery hides the record; it is never silently dropped
    let bytes = engine_png(3, 2, 1);
    let mut set = BackgroundSet::new((2, 2));
    let idx = set.add_source(FolderSource::new("dir".to_owned(), "pics"));
    let changes = set.reload_source(idx, &folder_snap(&[("a.png", &bytes)]));
    let mut engine = ConfirmChanges::new(
        idx,
        changes,
        accepting_cache(ChangeKind::New, ChangeResult::Reject),
    );
    drive(&mut engine, &mut set, &[("a.png", &bytes)]);
    assert_eq!(set.background_count(), 1);
    let b = set.background(0).expect("one record");
    assert!(b.flags.excluded);
}

#[test]
fn accepted_alteration_updates_key_and_keeps_edit_when_size_is_unchanged() {
    let old_bytes = engine_png(3, 2, 1);
    let new_bytes = engine_png(3, 2, 9);
    let (mut set, idx) = set_with_one_image(&old_bytes);
    set.set_background_crop_region(0, (2, 2), (1_500_000, 1_000_000), 500_000)
        .expect("the original is known");
    assert!(!set.background(0).unwrap().flags.unedited);

    let changes = set.reload_source(idx, &folder_snap(&[("a.png", &new_bytes)]));
    assert_eq!(changes.len(), 1);
    assert!(matches!(changes[0].kind, ChangeKind::Altered));
    let new_key = changes[0].key.clone();

    let mut engine = ConfirmChanges::new(
        idx,
        changes,
        accepting_cache(ChangeKind::Altered, ChangeResult::Accept),
    );
    drive(&mut engine, &mut set, &[("a.png", &new_bytes)]);

    let b = set.background(0).expect("record kept");
    // the stored key was re-pointed at the new content
    assert!(matches!(b.original.compare(&new_key), KeyRelation::SameOriginal));
    // same dimensions: the crop edit survives, and the record counts as
    // unedited again
    assert!(b.edit_info.is_some());
    assert!(b.flags.unedited);
    assert!(matches!(b.original_meta, OriginalMeta::Known { size: (3, 2) }));
}

#[test]
fn accepted_alteration_clears_edit_when_size_changed() {
    let old_bytes = engine_png(3, 2, 1);
    let new_bytes = engine_png(4, 2, 9);
    let (mut set, idx) = set_with_one_image(&old_bytes);
    set.set_background_crop_region(0, (2, 2), (1_500_000, 1_000_000), 500_000)
        .expect("the original is known");

    let changes = set.reload_source(idx, &folder_snap(&[("a.png", &new_bytes)]));
    let mut engine = ConfirmChanges::new(
        idx,
        changes,
        accepting_cache(ChangeKind::Altered, ChangeResult::Accept),
    );
    drive(&mut engine, &mut set, &[("a.png", &new_bytes)]);

    let b = set.background(0).expect("record kept");
    assert!(b.edit_info.is_none());
    assert!(matches!(b.original_meta, OriginalMeta::Known { size: (4, 2) }));
}

#[test]
fn rejected_deletion_keeps_the_record_marked_missing() {
    let bytes = engine_png(3, 2, 1);
    let (mut set, idx) = set_with_one_image(&bytes);
    let changes = set.reload_source(idx, &folder_snap(&[]));
    assert_eq!(changes.len(), 1);
    assert!(matches!(changes[0].kind, ChangeKind::Deleted));

    let mut engine = ConfirmChanges::new(
        idx,
        changes,
        accepting_cache(ChangeKind::Deleted, ChangeResult::Reject),
    );
    drive(&mut engine, &mut set, &[]);

    let b = set.background(0).expect("record retained");
    assert!(b.flags.original_missing);
    // the record is no longer editable: its original is not readable
    assert!(b.is_unavailable());
    assert_eq!(b.original_meta.last_known_size(), Some((3, 2)));
    assert!(b.crop_region((2, 2)).is_err());
}

#[test]
fn accepted_deletion_removes_the_record() {
    let bytes = engine_png(3, 2, 1);
    let (mut set, idx) = set_with_one_image(&bytes);
    let changes = set.reload_source(idx, &folder_snap(&[]));
    let mut engine = ConfirmChanges::new(
        idx,
        changes,
        accepting_cache(ChangeKind::Deleted, ChangeResult::Accept),
    );
    drive(&mut engine, &mut set, &[]);
    // the slot stays (indices are stable) but the record is gone
    assert_eq!(set.background_count(), 1);
    assert!(set.background(0).is_none());
}

#[test]
fn unavailable_change_marks_matching_records() {
    let bytes = engine_png(3, 2, 1);
    let (mut set, idx) = set_with_one_image(&bytes);
    let snap = FolderSnapshot {
        files: vec![SnapshotFile {
            filename: "a.png".to_owned(),
            reading: FileReading::Error("disk on fire".to_owned()),
        }],
    };
    let changes = set.reload_source(idx, &snap);
    assert_eq!(changes.len(), 1);
    let mut engine = ConfirmChanges::new(
        idx,
        changes,
        accepting_cache(
            ChangeKind::Unavailable(String::new()),
            ChangeResult::Accept,
        ),
    );
    drive(&mut engine, &mut set, &[]);
    let b = set.background(0).expect("record retained");
    assert!(b.is_unavailable());
    assert_eq!(b.original_meta.last_known_size(), Some((3, 2)));
}

#[test]
fn engine_suspends_without_a_cached_decision_and_resumes_after_one() {
    let bytes = engine_png(3, 2, 1);
    let mut set = BackgroundSet::new((2, 2));
    let idx = set.add_source(FolderSource::new("dir".to_owned(), "pics"));
    let changes = set.reload_source(idx, &folder_snap(&[("a.png", &bytes)]));
    let mut engine = ConfirmChanges::new(idx, changes, ResultCache::new());
    assert!(matches!(engine.step(&mut set, None), ReconcileStep::AwaitDecision));
    // abandoned and resumed later: the stack is untouched
    assert_eq!(engine.pending_count(), 1);
    assert!(matches!(engine.step(&mut set, None), ReconcileStep::AwaitDecision));
    engine.supply_decision(ChangeResult::Accept, true);
    assert!(matches!(engine.step(&mut set, None), ReconcileStep::AwaitImage(_)));
    let reading = ImageReading { dims: image_dimensions(&bytes) };
    assert!(matches!(engine.step(&mut set, Some(reading)), ReconcileStep::Applied));
    assert!(matches!(engine.step(&mut set, None), ReconcileStep::Done));
    assert_eq!(set.background_count(), 1);
}

#[test]
fn lookup_failure_mid_batch_is_fatal_not_skipped() {
    let mut set = BackgroundSet::new((2, 2));
    let idx = set.add_source(FolderSource::new("dir".to_owned(), "pics"));
    // a key this source never produced: the identity is unknown
    let ghost_key = OriginalKey::Folder(FileKey {
        filename: "ghost.png".to_owned(),
        hash: vec![0; 32],
    });
    let changes = vec![OriginalChange { key: ghost_key, kind: ChangeKind::New }];
    let mut engine = ConfirmChanges::new(
        idx,
        changes,
        accepting_cache(ChangeKind::New, ChangeResult::Accept),
    );
    let reading = Some(ImageReading { dims: None });
    assert!(matches!(
        engine.step(&mut set, reading),
        ReconcileStep::Fatal(ReconcileError::NotFound)
    ));
    // nothing was applied and the batch is intact
    assert_eq!(engine.pending_count(), 1);
    assert_eq!(set.background_count(), 0);
}

#[test]
fn wrong_source_key_mid_batch_is_fatal() {
    let mut set = BackgroundSet::new((2, 2));
    let idx = set.add_source(FolderSource::new("dir".to_owned(), "pics"));
    let raw = OriginalKey::Opaque(KeyData { filename: "a.png".to_owned(), hash: vec![1] });
    let changes = vec![OriginalChange { key: raw, kind: ChangeKind::New }];
    let mut engine = ConfirmChanges::new(
        idx,
        changes,
        accepting_cache(ChangeKind::New, ChangeResult::Accept),
    );
    let reading = Some(ImageReading { dims: None });
    assert!(matches!(
        engine.step(&mut set, reading),
        ReconcileStep::Fatal(ReconcileError::WrongSource)
    ));
}

#[test]
fn single_use_decisions_serve_one_change() {
    let mut cache = ResultCache::new();
    cache.put(&ChangeKind::Deleted, ChangeResult::Accept, true);
    assert_eq!(cache.get(&ChangeKind::Deleted), Some(ChangeResult::Accept));
    assert_eq!(cache.get(&ChangeKind::Deleted), None);
}

#[test]
fn persistent_decisions_serve_the_whole_batch() {
    let mut cache = ResultCache::new();
    cache.put(&ChangeKind::Altered, ChangeResult::Reject, false);
    assert_eq!(cache.get(&ChangeKind::Altered), Some(ChangeResult::Reject));
    assert_eq!(cache.get(&ChangeKind::Altered), Some(ChangeResult::Reject));
}

#[test]
fn a_persistent_decision_is_never_displaced() {
    let mut cache = ResultCache::new();
    cache.put(&ChangeKind::New, ChangeResult::Accept, false);
    cache.put(&ChangeKind::New, ChangeResult::Reject, true);
    assert_eq!(cache.get(&ChangeKind::New), Some(ChangeResult::Accept));
}

#[test]
fn decisions_are_cached_per_kind() {
    let mut cache = ResultCache::new();
    cache.put(&ChangeKind::New, ChangeResult::Accept, false);
    assert_eq!(cache.get(&ChangeKind::Deleted), None);
    assert_eq!(cache.get(&ChangeKind::Altered), None);
    assert_eq!(cache.get(&ChangeKind::Unavailable("x".to_owned())), None);
    assert_eq!(cache.peek(&ChangeKind::New), Some(ChangeResult::Accept));
}
