use dbgm::hashing::hash_content;
use dbgm::keys::{CompareKey, FileKey, KeyRelation, OriginalKey};
use dbgm::sources::{
    ChangeKind, FileReading, FolderSnapshot, FolderSource, OriginalResult, SnapshotFile,
};

fn snapshot_png_r(w: u32, h: u32, seed: u8) -> Vec<u8> {
    let mut img = image::RgbaImage::new(w, h);
    for (x, y, p) in img.enumerate_pixels_mut() {
        *p = image::Rgba([seed, (x % 256) as u8, (y % 256) as u8, 255]);
    }
    let mut cur = std::io::Cursor::new(Vec::new());
    image::DynamicImage::ImageRgba8(img)
        .write_to(&mut cur, image::ImageOutputFormat::Png)
        .unwrap();
    cur.into_inner()
}

fn snap(files: Vec<(&str, FileReading)>) -> FolderSnapshot {
    FolderSnapshot {
        files: files
            .into_iter()
            .map(|(name, reading)| SnapshotFile { filename: name.to_owned(), reading })
            .collect(),
    }
}

#[test]
fn reload_discovers_a_new_image() {
    let bytes = snapshot_png_r(3, 2, 1);
    let mut source = FolderSource::new("dir".to_owned(), "pics");
    let changes = source.reload(&snap(vec![("a.png", FileReading::Content(bytes.clone()))]));
    assert_eq!(changes.len(), 1);
    assert!(matches!(changes[0].kind, ChangeKind::New));
    match &changes[0].key {
        OriginalKey::Folder(k) => {
            assert_eq!(k.filename, "a.png");
            assert_eq!(k.hash, hash_content(&bytes));
        },
        _ => panic!("expected a folder key"),
    }
    // the discovered original is now in the index, under its exact key
    match source.original(&changes[0].key) {
        OriginalResult::Original(o) => {
            assert_eq!(o.filename, "a.png");
            assert_eq!(o.path, "dir/a.png");
        },
        _ => panic!("expected the original to resolve exactly"),
    }
}

#[test]
fn reload_skips_files_that_are_not_images() {
    let mut source = FolderSource::new("dir".to_owned(), "pics");
    let changes = source.reload(
        &snap(vec![("notes.txt", FileReading::Content(vec![1, 2, 3]))]),
    );
    assert_eq!(changes.len(), 0);
    assert_eq!(source.original_count(), 0);
}

#[test]
fn reload_twice_with_no_change_reports_nothing() {
    // the law proved in the library, checked on concrete values
    let bytes = snapshot_png_r(3, 2, 1);
    let mut source = FolderSource::new("dir".to_owned(), "pics");
    let observation = snap(vec![
        ("a.png", FileReading::Content(bytes.clone())),
        ("b.png", FileReading::Content(snapshot_png_r(2, 2, 2))),
        ("notes.txt", FileReading::Content(vec![1, 2, 3])),
    ]);
    let first = source.reload(&observation);
    assert_eq!(first.len(), 2);
    let second = source.reload(&observation);
    assert_eq!(second.len(), 0);
}

#[test]
fn reload_classifies_an_altered_file() {
    let old_bytes = snapshot_png_r(3, 2, 1);
    let new_bytes = snapshot_png_r(3, 2, 9);
    let mut source = FolderSource::new("dir".to_owned(), "pics");
    source.reload(&snap(vec![("a.png", FileReading::Content(old_bytes))]));
    let changes = source.reload(&snap(vec![("a.png", FileReading::Content(new_bytes.clone()))]));
    assert_eq!(changes.len(), 1);
    assert!(matches!(changes[0].kind, ChangeKind::Altered));
    // the change is keyed by the content now in the source, and the stored
    // digest was updated to it
    match &changes[0].key {
        OriginalKey::Folder(k) => assert_eq!(k.hash, hash_content(&new_bytes)),
        _ => panic!("expected a folder key"),
    }
    assert!(matches!(source.original(&changes[0].key), OriginalResult::Original(_)));
}

#[test]
fn reload_classifies_a_deleted_file() {
    let bytes = snapshot_png_r(3, 2, 1);
    let mut source = FolderSource::new("dir".to_owned(), "pics");
    let first = source.reload(&snap(vec![("a.png", FileReading::Content(bytes))]));
    let changes = source.reload(&snap(vec![]));
    assert_eq!(changes.len(), 1);
    assert!(matches!(changes[0].kind, ChangeKind::Deleted));
    assert!(matches!(
        changes[0].key.compare(&first[0].key),
        KeyRelation::SameOriginal
    ));
    // the entry is gone from the index
    assert!(matches!(source.original(&first[0].key), OriginalResult::NotFound));
}

#[test]
fn reload_reports_unreadable_files_without_forgetting_them() {
    let bytes = snapshot_png_r(3, 2, 1);
    let mut source = FolderSource::new("dir".to_owned(), "pics");
    let first = source.reload(&snap(vec![("a.png", FileReading::Content(bytes.clone()))]));
    let changes = source.reload(
        &snap(vec![("a.png", FileReading::Error("permission denied".to_owned()))]),
    );
    assert_eq!(changes.len(), 1);
    match &changes[0].kind {
        ChangeKind::Unavailable(cause) => assert_eq!(cause, "permission denied"),
        _ => panic!("expected an unavailable change"),
    }
    // no false deletion on a transient error: the stored state is untouched
    assert!(matches!(source.original(&first[0].key), OriginalResult::Original(_)));
    // once the file is readable again, nothing has changed
    let after = source.reload(&snap(vec![("a.png", FileReading::Content(bytes))]));
    assert_eq!(after.len(), 0);
}

#[test]
fn reload_reports_known_entries_before_discoveries() {
    let mut source = FolderSource::new("dir".to_owned(), "pics");
    source.reload(&snap(vec![("a.png", FileReading::Content(snapshot_png_r(2, 2, 1)))]));
    let changes = source.reload(&snap(vec![
        ("b.png", FileReading::Content(snapshot_png_r(2, 2, 2))),
    ]));
    // the deletion of a.png is reported before the discovery of b.png
    assert_eq!(changes.len(), 2);
    assert!(matches!(changes[0].kind, ChangeKind::Deleted));
    assert!(matches!(changes[1].kind, ChangeKind::New));
}

#[test]
fn wrong_source_key_is_refused_cleanly() {
    let mut source = FolderSource::new("dir".to_owned(), "pics");
    source.reload(&snap(vec![("a.png", FileReading::Content(snapshot_png_r(2, 2, 1)))]));
    // key data that does not fit the folder schema assembles opaquely and is
    // refused as WrongSource, never a panic
    let raw = source.assemble_key(dbgm::keys::KeyData {
        filename: "a.png".to_owned(),
        hash: vec![1, 2, 3],
    });
    assert!(matches!(raw, OriginalKey::Opaque(_)));
    assert!(matches!(source.original(&raw), OriginalResult::WrongSource));
}

#[test]
fn content_mismatch_returns_the_current_original() {
    let mut source = FolderSource::new("dir".to_owned(), "pics");
    let changes = source.reload(
        &snap(vec![("a.png", FileReading::Content(snapshot_png_r(2, 2, 1)))]),
    );
    let stale = OriginalKey::Folder(FileKey {
        filename: "a.png".to_owned(),
        hash: vec![0; 32],
    });
    match source.original(&stale) {
        OriginalResult::ContentMismatch(o) => {
            assert!(matches!(
                changes[0].key.compare(&o.key()),
                KeyRelation::SameOriginal
            ));
        },
        _ => panic!("expected a content mismatch"),
    }
}
