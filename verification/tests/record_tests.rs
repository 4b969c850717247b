use dbgm::background::{DesktopBackground, DesktopBackgroundFlags, Filter, OriginalMeta};
use dbgm::geometry::{PIXEL, SCALE_ONE};
use dbgm::keys::{FileKey, OriginalKey};
use dbgm::set::BackgroundSet;
use dbgm::sources::{FolderSource, OriginalFile};

fn test_original(name: &str) -> OriginalFile {
    OriginalFile {
        filename: name.to_owned(),
        path: format!("dir/{}", name),
        hash: vec![7; 32],
        mismatch: false,
    }
}

fn test_key(name: &str) -> OriginalKey {
    OriginalKey::Folder(FileKey { filename: name.to_owned(), hash: vec![7; 32] })
}

fn known_record(name: &str, size: (u32, u32)) -> DesktopBackground {
    DesktopBackground::from_original(0, test_key(name), &test_original(name), Some(size))
}

#[test]
fn from_original_captures_name_location_and_size() {
    let b = known_record("a.png", (3, 2));
    assert_eq!(b.name, "a.png");
    assert_eq!(b.location, "dir/a.png");
    assert_eq!(b.comments, "");
    assert!(b.flags.unedited);
    assert!(!b.flags.original_missing);
    assert!(!b.flags.excluded);
    assert!(matches!(b.original_meta, OriginalMeta::Known { size: (3, 2) }));
}

#[test]
fn from_original_with_a_failed_read_is_unavailable_not_missing() {
    // unavailable may be transient: the record is not marked missing
    let b = DesktopBackground::from_original(0, test_key("a.png"), &test_original("a.png"), None);
    assert!(b.is_unavailable());
    assert!(!b.flags.original_missing);
    assert_eq!(b.original_meta.last_known_size(), None);
}

#[test]
fn mark_unavailable_remembers_the_last_size() {
    let mut b = known_record("a.png", (3, 2));
    b.mark_unavailable();
    assert!(b.is_unavailable());
    assert_eq!(b.original_meta.last_known_size(), Some((3, 2)));
}

#[test]
fn crop_region_defaults_to_centered_and_fitting() {
    let b = known_record("a.png", (200, 100));
    let r = b.crop_region((100, 50)).expect("the original is known");
    assert_eq!(r.scale, SCALE_ONE);
    assert_eq!(r.center, (100 * PIXEL, 50 * PIXEL));
}

#[test]
fn crop_region_fails_when_the_original_is_not_known() {
    let mut b = known_record("a.png", (200, 100));
    b.mark_unavailable();
    assert!(b.crop_region((100, 50)).is_err());
    assert!(b.edit_crop_region((100, 50)).is_err());
    assert!(b.set_crop_region((100, 50), (0, 0), SCALE_ONE).is_err());
}

#[test]
fn edit_crop_region_stores_the_clipped_default() {
    let mut b = known_record("a.png", (200, 100));
    let region = b.edit_crop_region((100, 50)).expect("the original is known");
    assert_eq!(region.scale, SCALE_ONE);
    assert_eq!(region.center, (100 * PIXEL, 50 * PIXEL));
    let e = b.edit_info.expect("the edit was materialized");
    assert_eq!(e.center, (100 * PIXEL, 50 * PIXEL));
    assert_eq!(e.scale, SCALE_ONE);
}

#[test]
fn set_crop_region_clips_and_marks_the_record_edited() {
    let mut b = known_record("a.png", (200, 100));
    b.set_crop_region((100, 50), (0, 0), 3 * SCALE_ONE).expect("the original is known");
    assert!(!b.flags.unedited);
    let e = b.edit_info.expect("the edit was stored");
    assert_eq!(e.scale, SCALE_ONE);
    assert_eq!(e.center, (50 * PIXEL, 25 * PIXEL));
    // the stored edit is what crop_region now returns
    let r = b.crop_region((100, 50)).expect("the original is known");
    assert_eq!(r.center, e.center);
    assert_eq!(r.scale, e.scale);
}

#[test]
fn removing_a_source_removes_exactly_its_records() {
    // records of the removed source go; records of every other source stay,
    // under their old indices
    let mut set = BackgroundSet::new((2, 2));
    let s0 = set.add_source(FolderSource::new("dir0".to_owned(), "zero"));
    let s1 = set.add_source(FolderSource::new("dir1".to_owned(), "one"));
    let a = set.add_background(known_record("a.png", (3, 2)));
    let mut b1 = known_record("b.png", (3, 2));
    b1.source = s1;
    let b = set.add_background(b1);
    let mut c0 = known_record("c.png", (3, 2));
    c0.source = s0;
    let c = set.add_background(c0);

    set.remove_source(s0);

    assert!(set.background(a).is_none());
    assert!(set.background(c).is_none());
    let survivor = set.background(b).expect("records of other sources stay");
    assert_eq!(survivor.name, "b.png");
    assert!(set.source(s0).is_none());
    assert!(set.source(s1).is_some());
}

#[test]
fn source_indices_stay_stable_across_removal() {
    let mut set = BackgroundSet::new((2, 2));
    let s0 = set.add_source(FolderSource::new("dir0".to_owned(), "zero"));
    let s1 = set.add_source(FolderSource::new("dir1".to_owned(), "one"));
    set.remove_source(s0);
    assert_eq!(set.source_count(), 2);
    assert_eq!(set.source(s1).expect("still live").name(), "one");
}

#[test]
fn filter_hides_excluded_records_by_default() {
    let filter = Filter::default();
    let mut shown = known_record("a.png", (3, 2));
    assert!(filter.should_display(&shown));
    shown.flags.excluded = true;
    assert!(!filter.should_display(&shown));
    let permissive = Filter { show_edited: true, show_excluded: true };
    assert!(permissive.should_display(&shown));
}

#[test]
fn filter_hides_edited_records_when_asked() {
    let strict = Filter { show_edited: false, show_excluded: false };
    let mut b = known_record("a.png", (3, 2));
    assert!(strict.should_display(&b));
    b.flags.unedited = false;
    assert!(!strict.should_display(&b));
}

#[test]
fn last_known_size_follows_the_meta() {
    assert_eq!(OriginalMeta::Known { size: (4, 5) }.last_known_size(), Some((4, 5)));
    assert_eq!(
        OriginalMeta::Unavailable { last_known_size: Some((1, 2)) }.last_known_size(),
        Some((1, 2))
    );
    assert_eq!(OriginalMeta::Stale { last_known_size: None }.last_known_size(), None);
}

#[test]
fn fresh_flags_are_unedited_only() {
    let flags = DesktopBackgroundFlags::new_unedited();
    assert!(flags.unedited && !flags.original_missing && !flags.excluded);
}
