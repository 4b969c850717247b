use dbgm::geometry::{CropRegion, EditableCropRegion, PIXEL, SCALE_ONE};

#[test]
fn clip_clamps_scale_then_center() {
    // bounds 200x100 px, crop 100x50 px: the largest fitting scale is 2.0,
    // so the bound is min(1, 2, 2) = 1; the half extents at scale 1 are
    // 50 px and 25 px, and a center at the origin is pulled inside
    let mut r = EditableCropRegion {
        crop_size: (100, 50),
        tex_size: (200, 100),
        center: (0, 0),
        scale: 2 * SCALE_ONE,
    };
    r.clip();
    assert_eq!(r.scale, SCALE_ONE);
    assert_eq!(r.center, (50 * PIXEL, 25 * PIXEL));
}

#[test]
fn clip_is_idempotent() {
    // the law proved in the library, checked on concrete values
    let mut r = EditableCropRegion {
        crop_size: (100, 50),
        tex_size: (30, 400),
        center: (-7 * PIXEL, 1000 * PIXEL),
        scale: 3_333_333,
    };
    r.clip();
    let once = r;
    r.clip();
    assert_eq!(r.scale, once.scale);
    assert_eq!(r.center, once.center);
}

#[test]
fn clip_respects_the_tighter_axis() {
    // bounds 30x400 px, crop 100x50: the x axis only fits scale 0.3
    let mut r = EditableCropRegion {
        crop_size: (100, 50),
        tex_size: (30, 400),
        center: (15 * PIXEL, 200 * PIXEL),
        scale: SCALE_ONE,
    };
    r.clip();
    assert_eq!(r.scale, 300_000);
    assert_eq!(r.center, (15 * PIXEL, 200 * PIXEL));
}

#[test]
fn new_centered_fits_and_centers() {
    let r = CropRegion::new_centered((100, 50), (200, 100));
    assert_eq!(r.scale, SCALE_ONE);
    assert_eq!(r.center, (100 * PIXEL, 50 * PIXEL));
    assert_eq!(r.crop_size, (100, 50));
}

#[test]
fn new_centered_never_upscales_beyond_native() {
    // bounds smaller than the crop size: the scale fits the bounds instead
    let r = CropRegion::new_centered((100, 50), (50, 50));
    assert_eq!(r.scale, 500_000);
    assert_eq!(r.center, (25 * PIXEL, 25 * PIXEL));
}

#[test]
fn pixel_rect_covers_the_region() {
    let r = CropRegion { crop_size: (100, 50), center: (100 * PIXEL, 50 * PIXEL), scale: SCALE_ONE };
    assert_eq!(r.pixel_rect((200, 100)), (50, 25, 100, 50));
}

#[test]
fn pixel_rect_rounds_outward() {
    // a crop of 3 px at scale 1/3 spans one sub-pixel unit less than 1 px,
    // centered mid-image: floor/ceil rounding widens it to whole pixels
    let r = CropRegion {
        crop_size: (3, 3),
        center: (3 * PIXEL / 2, 3 * PIXEL / 2),
        scale: 333_333,
    };
    let (x, y, w, h) = r.pixel_rect((3, 3));
    assert_eq!((x, y), (1, 1));
    assert_eq!((w, h), (1, 1));
}

#[test]
fn clip_handles_the_largest_bounds() {
    // the extreme corner of the input space: no overflow, and the center is
    // pulled inside the bounds on both axes
    let mut r = EditableCropRegion {
        crop_size: (1, 1),
        tex_size: (u32::MAX, u32::MAX),
        center: (i64::MAX, i64::MIN),
        scale: u32::MAX,
    };
    r.clip();
    assert_eq!(r.scale, SCALE_ONE);
    assert_eq!(r.center.0, u32::MAX as i64 * PIXEL - PIXEL / 2);
    assert_eq!(r.center.1, PIXEL / 2);
}

#[test]
fn corners_match_center_and_extent() {
    let r = CropRegion { crop_size: (100, 50), center: (100 * PIXEL, 50 * PIXEL), scale: SCALE_ONE };
    assert_eq!(r.top_left(), (50 * PIXEL, 25 * PIXEL));
    assert_eq!(r.bottom_right(), (150 * PIXEL, 75 * PIXEL));
    let e = EditableCropRegion {
        crop_size: (100, 50),
        tex_size: (200, 100),
        center: (100 * PIXEL, 50 * PIXEL),
        scale: SCALE_ONE,
    };
    assert_eq!(e.top_left(), (50 * PIXEL, 25 * PIXEL));
    assert_eq!(e.bottom_right(), (150 * PIXEL, 75 * PIXEL));
}
