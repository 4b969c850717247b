use dbgm::background::DesktopBackgroundFlags;
use dbgm::export::{ExportReading, SkipReason};
use dbgm::imaging::image_dimensions;
use dbgm::keys::OriginalKey;
use dbgm::reconcile::{ChangeResult, ConfirmChanges, ImageReading, ReconcileStep, ResultCache};
use dbgm::set::BackgroundSet;
use dbgm::sources::{ChangeKind, FileReading, FolderSnapshot, FolderSource, SnapshotFile};

fn export_png(w: u32, h: u32, seed: u8) -> Vec<u8> {
    let mut img = image::RgbaImage::new(w, h);
    for (x, y, p) in img.enumerate_pixels_mut() {
        *p = image::Rgba([seed, (x % 256) as u8, (y % 256) as u8, 255]);
    }
    let mut cur = std::io::Cursor::new(Vec::new());
    image::DynamicImage::ImageRgba8(img)
        .write_to(&mut cur, image::ImageOutputFormat::Png)
        .unwrap();
    cur.into_inner()
}

/// Build a set over the given files, accepting every discovery.
fn set_of(files: &[(&str, &Vec<u8>)]) -> BackgroundSet {
    let mut set = BackgroundSet::new((2, 2));
    let idx = set.add_source(FolderSource::new("dir".to_owned(), "pics"));
    let snap = FolderSnapshot {
        files: files
            .iter()
            .map(|(name, bytes)| SnapshotFile {
                filename: (*name).to_owned(),
                reading: FileReading::Content((*bytes).clone()),
            })
            .collect(),
    };
    let changes = set.reload_source(idx, &snap);
    let mut cache = ResultCache::new();
    cache.put(&ChangeKind::New, ChangeResult::Accept, false);
    let mut engine = ConfirmChanges::new(idx, changes, cache);
    let mut reading: Option<ImageReading> = None;
    loop {
        match engine.step(&mut set, reading.take()) {
            ReconcileStep::Done => break,
            ReconcileStep::Applied => {},
            ReconcileStep::AwaitImage(key) => {
                let name = match key {
                    OriginalKey::Folder(k) => k.filename,
                    OriginalKey::Opaque(d) => d.filename,
                };
                let dims = files
                    .iter()
                    .find(|(n, _)| *n == name)
                    .and_then(|(_, bytes)| image_dimensions(bytes));
                reading = Some(ImageReading { dims });
            },
            other => panic!("unexpected step: {}", step_name(&other)),
        }
    }
    set
}

fn step_name(step: &ReconcileStep) -> &'static str {
    match step {
        ReconcileStep::Done => "done",
        ReconcileStep::Applied => "applied",
        ReconcileStep::AwaitDecision => "await decision",
        ReconcileStep::AwaitImage(_) => "await image",
        ReconcileStep::Fatal(_) => "fatal",
    }
}

fn record_named(set: &BackgroundSet, name: &str) -> usize {
    for id in 0..set.background_count() {
        if let Some(b) = set.background(id) {
            if b.name == name {
                return id;
            }
        }
    }
    panic!("no record named {}", name);
}

fn exclude(set: &mut BackgroundSet, id: usize) {
    let flags = set.background(id).unwrap().flags;
    set.set_background_flags(id, DesktopBackgroundFlags { excluded: true, ..flags });
}

#[test]
fn excluded_record_is_skipped_and_reported() {
    // one excluded record and one normal record of the same cropped pixel
    // content: exactly one file comes out, and the skip report lists the
    // excluded record
    let bytes = export_png(3, 2, 1);
    let mut set = set_of(&[("a.png", &bytes), ("b.png", &bytes)]);
    let a = record_named(&set, "a.png");
    let b = record_named(&set, "b.png");
    exclude(&mut set, a);
    let plan = set.rebuild_image_folder(vec![
        ExportReading { id: a, reading: FileReading::Content(bytes.clone()) },
        ExportReading { id: b, reading: FileReading::Content(bytes.clone()) },
    ]);
    assert_eq!(plan.outputs.len(), 1);
    assert!(plan.outputs[0].file_name.ends_with(".png"));
    assert_eq!(plan.skipped.len(), 1);
    assert_eq!(plan.skipped[0].id, a);
    assert!(matches!(plan.skipped[0].reason, SkipReason::Excluded));
}

#[test]
fn identical_crops_share_one_file_name() {
    // two records cropping to byte-identical output are deduplicated by
    // their content-derived name
    let bytes = export_png(3, 2, 1);
    let mut set = set_of(&[("a.png", &bytes), ("b.png", &bytes)]);
    let a = record_named(&set, "a.png");
    let b = record_named(&set, "b.png");
    let plan = set.rebuild_image_folder(vec![
        ExportReading { id: a, reading: FileReading::Content(bytes.clone()) },
        ExportReading { id: b, reading: FileReading::Content(bytes.clone()) },
    ]);
    assert_eq!(plan.outputs.len(), 2);
    assert_eq!(plan.outputs[0].file_name, plan.outputs[1].file_name);
    assert_eq!(plan.outputs[0].data, plan.outputs[1].data);
    assert!(plan.skipped.is_empty());
}

#[test]
fn different_crops_get_different_file_names() {
    let bytes_a = export_png(3, 2, 1);
    let bytes_b = export_png(3, 2, 200);
    let mut set = set_of(&[("a.png", &bytes_a), ("b.png", &bytes_b)]);
    let a = record_named(&set, "a.png");
    let b = record_named(&set, "b.png");
    let plan = set.rebuild_image_folder(vec![
        ExportReading { id: a, reading: FileReading::Content(bytes_a.clone()) },
        ExportReading { id: b, reading: FileReading::Content(bytes_b.clone()) },
    ]);
    assert_eq!(plan.outputs.len(), 2);
    assert_ne!(plan.outputs[0].file_name, plan.outputs[1].file_name);
}

#[test]
fn unreadable_original_is_skipped_and_marked_unavailable() {
    let bytes = export_png(3, 2, 1);
    let mut set = set_of(&[("a.png", &bytes)]);
    let a = record_named(&set, "a.png");
    let plan = set.rebuild_image_folder(vec![ExportReading {
        id: a,
        reading: FileReading::Error("unplugged".to_owned()),
    }]);
    assert!(plan.outputs.is_empty());
    assert_eq!(plan.skipped.len(), 1);
    match &plan.skipped[0].reason {
        SkipReason::CorruptImage(cause) => assert_eq!(cause, "unplugged"),
        _ => panic!("expected a corrupt-image skip"),
    }
    assert!(set.background(a).unwrap().is_unavailable());
}

#[test]
fn undecodable_bytes_are_skipped_as_corrupt() {
    let bytes = export_png(3, 2, 1);
    let mut set = set_of(&[("a.png", &bytes)]);
    let a = record_named(&set, "a.png");
    let plan = set.rebuild_image_folder(vec![ExportReading {
        id: a,
        reading: FileReading::Content(vec![1, 2, 3]),
    }]);
    assert!(plan.outputs.is_empty());
    assert!(matches!(plan.skipped[0].reason, SkipReason::CorruptImage(_)));
    assert!(set.background(a).unwrap().is_unavailable());
}

#[test]
fn record_without_a_known_original_is_skipped_as_unavailable() {
    let bytes = export_png(3, 2, 1);
    let mut set = set_of(&[("a.png", &bytes)]);
    let a = record_named(&set, "a.png");
    set.mark_background_unavailable(a);
    // the original still resolves and the bytes decode, but no crop region
    // can be obtained for an unavailable original
    let plan = set.rebuild_image_folder(vec![ExportReading {
        id: a,
        reading: FileReading::Content(bytes.clone()),
    }]);
    assert!(plan.outputs.is_empty());
    assert!(matches!(plan.skipped[0].reason, SkipReason::OriginalUnavailable));
}

#[test]
fn exported_file_is_the_cropped_png() {
    let bytes = export_png(4, 4, 7);
    let mut set = set_of(&[("a.png", &bytes)]);
    let a = record_named(&set, "a.png");
    // crop to the centered 2x2 target
    let plan = set.rebuild_image_folder(vec![ExportReading {
        id: a,
        reading: FileReading::Content(bytes.clone()),
    }]);
    assert_eq!(plan.outputs.len(), 1);
    let img = image::load_from_memory(&plan.outputs[0].data).unwrap();
    assert_eq!(image::GenericImageView::dimensions(&img), (2, 2));
}
