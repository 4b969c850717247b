//! Crop geometry: a rectangular region of interest within an original's
//! pixel bounds.
//!
//! Coordinates are exact sub-pixel integers: one pixel is `PIXEL` coordinate
//! units. A scale factor is a whole number of millionths, `SCALE_ONE` being a
//! factor of one. The region covered by a crop is `center ± crop_size * scale
//! / 2`, where `crop_size` is the fixed target size in whole pixels.

use vstd::prelude::*;

verus! {

/// Scale factor equal to 1.0: scale values are in millionths.
pub const SCALE_ONE: u32 = 1_000_000;

/// One pixel, in sub-pixel coordinate units.
pub const PIXEL: i64 = 1_000_000;

/// Smaller of two integers.
pub open spec fn spec_min(a: int, b: int) -> int {
    if a <= b {
        a
    } else {
        b
    }
}

/// Larger of two integers.
pub open spec fn spec_max(a: int, b: int) -> int {
    if a >= b {
        a
    } else {
        b
    }
}

/// `x` clamped into `[lo, hi]`; `hi` wins when the interval is empty.
pub open spec fn spec_clamp(x: int, lo: int, hi: int) -> int {
    spec_min(hi, spec_max(lo, x))
}

/// The largest admissible scale: at most one, and no larger than what keeps a
/// `crop`-sized rectangle inside `tex`-sized bounds.
pub open spec fn spec_scale_bound(tex: (u32, u32), crop: (u32, u32)) -> int
    recommends
        crop.0 > 0,
        crop.1 > 0,
{
    spec_min(
        SCALE_ONE as int,
        spec_min(
            tex.0 as int * SCALE_ONE as int / crop.0 as int,
            tex.1 as int * SCALE_ONE as int / crop.1 as int,
        ),
    )
}

/// Half the extent, in sub-pixel units, of a crop of `crop` pixels at `scale`.
pub open spec fn spec_half_extent(scale: int, crop: u32) -> int {
    scale * crop as int / 2
}

/// Largest admissible scale for a `crop`-sized region in `tex`-sized bounds.
fn scale_bound(tex: (u32, u32), crop: (u32, u32)) -> (r: u32)
    requires
        crop.0 > 0,
        crop.1 > 0,
    ensures
        r as int == spec_scale_bound(tex, crop),
        r <= SCALE_ONE,
{
    let rx: u64 = tex.0 as u64 * SCALE_ONE as u64 / crop.0 as u64;
    let ry: u64 = tex.1 as u64 * SCALE_ONE as u64 / crop.1 as u64;
    let mut b: u64 = SCALE_ONE as u64;
    if rx < b {
        b = rx;
    }
    if ry < b {
        b = ry;
    }
    b as u32
}

/// Half extent of a crop of `crop` pixels at `scale`, in sub-pixel units.
fn half_extent(scale: u32, crop: u32) -> (r: i64)
    requires
        scale <= SCALE_ONE,
    ensures
        r as int == spec_half_extent(scale as int, crop),
        0 <= r,
{
    proof {
        assert(scale as int * crop as int <= SCALE_ONE as int * u32::MAX as int)
            by (nonlinear_arith)
            requires
                scale <= SCALE_ONE,
                crop <= u32::MAX,
                0 <= scale,
                0 <= crop,
        ;
        assert(scale as int * crop as int >= 0) by (nonlinear_arith)
            requires
                0 <= scale,
                0 <= crop,
        ;
    }
    (scale as i64) * (crop as i64) / 2
}

/// `x` clamped into `[lo, hi]`; `hi` wins when the interval is empty.
fn clamp(x: i64, lo: i64, hi: i64) -> (r: i64)
    ensures
        r as int == spec_clamp(x as int, lo as int, hi as int),
{
    let y: i64 = if x >= lo {
        x
    } else {
        lo
    };
    if y <= hi {
        y
    } else {
        hi
    }
}

/// An editable crop region: the stored `center` and `scale` together with the
/// fixed target size and the pixel bounds of the image being cropped.
#[derive(Clone, Copy)]
pub struct EditableCropRegion {
    /// The base size of the crop region in pixels (multiplied by `scale`).
    pub crop_size: (u32, u32),
    /// The pixel bounds of the image being cropped.
    pub tex_size: (u32, u32),
    /// Center of the region, in sub-pixel coordinates.
    pub center: (i64, i64),
    /// Scale factor, in millionths.
    pub scale: u32,
}

impl EditableCropRegion {
    /// A region whose scale is at most one and whose center lies within the
    /// sub-pixel bounds of a `u32`-sized image; `clip` establishes this.
    pub open spec fn wf(self) -> bool {
        &&& self.scale <= SCALE_ONE
        &&& 0 <= self.center.0 <= u32::MAX as int * PIXEL as int
        &&& 0 <= self.center.1 <= u32::MAX as int * PIXEL as int
    }

    /// What `clip` computes: the scale is clamped first, to
    /// `[0, min(1, tex/crop)]`, and the center is then clamped so that the
    /// scaled rectangle stays inside the bounds. Clamping in this order is
    /// required: clamping the center under an oversized scale could leave a
    /// rectangle that still exceeds the bounds.
    pub open spec fn spec_clip(self) -> EditableCropRegion
        recommends
            self.crop_size.0 > 0,
            self.crop_size.1 > 0,
    {
        let bound = spec_scale_bound(self.tex_size, self.crop_size);
        let s = spec_min(self.scale as int, bound);
        let hx = spec_half_extent(s, self.crop_size.0);
        let hy = spec_half_extent(s, self.crop_size.1);
        EditableCropRegion {
            scale: s as u32,
            center: (
                spec_clamp(
                    self.center.0 as int,
                    hx,
                    self.tex_size.0 as int * PIXEL as int - hx,
                ) as i64,
                spec_clamp(
                    self.center.1 as int,
                    hy,
                    self.tex_size.1 as int * PIXEL as int - hy,
                ) as i64,
            ),
            ..self
        }
    }

    /// Clamp this region so that it lies within the image bounds.
    pub fn clip(&mut self)
        requires
            old(self).crop_size.0 > 0,
            old(self).crop_size.1 > 0,
        ensures
            *final(self) == old(self).spec_clip(),
            final(self).wf(),
    {
        let bound = scale_bound(self.tex_size, self.crop_size);
        if self.scale > bound {
            self.scale = bound;
        }
        let hx = half_extent(self.scale, self.crop_size.0);
        let hy = half_extent(self.scale, self.crop_size.1);
        self.center.0 = clamp(self.center.0, hx, self.tex_size.0 as i64 * PIXEL - hx);
        self.center.1 = clamp(self.center.1, hy, self.tex_size.1 as i64 * PIXEL - hy);
        proof {
            lemma_clip_wf(*old(self));
        }
    }

    /// Upper-left corner of the region, in sub-pixel coordinates.
    pub fn top_left(&self) -> (r: (i64, i64))
        requires
            self.wf(),
        ensures
            r.0 as int == self.center.0 as int - spec_half_extent(self.scale as int, self.crop_size.0),
            r.1 as int == self.center.1 as int - spec_half_extent(self.scale as int, self.crop_size.1),
    {
        let hx = half_extent(self.scale, self.crop_size.0);
        let hy = half_extent(self.scale, self.crop_size.1);
        proof {
            lemma_half_extent_range(self.scale as int, self.crop_size.0);
            lemma_half_extent_range(self.scale as int, self.crop_size.1);
        }
        (self.center.0 - hx, self.center.1 - hy)
    }

    /// Lower-right corner of the region, in sub-pixel coordinates.
    pub fn bottom_right(&self) -> (r: (i64, i64))
        requires
            self.wf(),
        ensures
            r.0 as int == self.center.0 as int + spec_half_extent(self.scale as int, self.crop_size.0),
            r.1 as int == self.center.1 as int + spec_half_extent(self.scale as int, self.crop_size.1),
    {
        let hx = half_extent(self.scale, self.crop_size.0);
        let hy = half_extent(self.scale, self.crop_size.1);
        proof {
            lemma_half_extent_range(self.scale as int, self.crop_size.0);
            lemma_half_extent_range(self.scale as int, self.crop_size.1);
        }
        (self.center.0 + hx, self.center.1 + hy)
    }
}

/// A half extent at a scale of at most one is at most half the sub-pixel
/// width of the bounds of a `u32`-sized image.
proof fn lemma_half_extent_range(scale: int, crop: u32)
    requires
        0 <= scale <= SCALE_ONE,
    ensures
        0 <= spec_half_extent(scale, crop) <= SCALE_ONE as int * u32::MAX as int / 2,
{
    assert(0 <= scale * crop as int <= SCALE_ONE as int * u32::MAX as int) by (nonlinear_arith)
        requires
            0 <= scale <= SCALE_ONE,
            0 <= crop <= u32::MAX,
    ;
}

/// A crop region read out of a background record: the stored (or default)
/// `center` and `scale` together with the fixed target size in pixels.
#[derive(Clone, Copy)]
pub struct CropRegion {
    /// The base size of the crop region in pixels (multiplied by `scale`).
    pub crop_size: (u32, u32),
    /// Center of the region, in sub-pixel coordinates.
    pub center: (i64, i64),
    /// Scale factor, in millionths.
    pub scale: u32,
}

impl CropRegion {
    /// A region whose scale is at most one and whose center lies within the
    /// sub-pixel bounds of a `u32`-sized image.
    pub open spec fn wf(self) -> bool {
        &&& self.scale <= SCALE_ONE
        &&& 0 <= self.center.0 <= u32::MAX as int * PIXEL as int
        &&& 0 <= self.center.1 <= u32::MAX as int * PIXEL as int
    }

    /// The default region when no edit exists: centered, scaled to the
    /// largest factor of at most one that fits the crop size inside the
    /// bounds.
    pub open spec fn spec_new_centered(crop_size: (u32, u32), bounds: (u32, u32)) -> CropRegion
        recommends
            crop_size.0 > 0,
            crop_size.1 > 0,
    {
        CropRegion {
            crop_size,
            center: (
                (bounds.0 as int * PIXEL as int / 2) as i64,
                (bounds.1 as int * PIXEL as int / 2) as i64,
            ),
            scale: spec_scale_bound(bounds, crop_size) as u32,
        }
    }

    /// Build the default centered, maximally fitting region.
    pub fn new_centered(crop_size: (u32, u32), bounds: (u32, u32)) -> (r: CropRegion)
        requires
            crop_size.0 > 0,
            crop_size.1 > 0,
        ensures
            r == Self::spec_new_centered(crop_size, bounds),
            r.wf(),
    {
        let scale = scale_bound(bounds, crop_size);
        CropRegion {
            crop_size,
            center: (
                bounds.0 as i64 * PIXEL / 2,
                bounds.1 as i64 * PIXEL / 2,
            ),
            scale,
        }
    }

    /// Upper-left corner of the region, in sub-pixel coordinates.
    pub fn top_left(&self) -> (r: (i64, i64))
        requires
            self.wf(),
        ensures
            r.0 as int == self.center.0 as int - spec_half_extent(self.scale as int, self.crop_size.0),
            r.1 as int == self.center.1 as int - spec_half_extent(self.scale as int, self.crop_size.1),
    {
        let hx = half_extent(self.scale, self.crop_size.0);
        let hy = half_extent(self.scale, self.crop_size.1);
        proof {
            lemma_half_extent_range(self.scale as int, self.crop_size.0);
            lemma_half_extent_range(self.scale as int, self.crop_size.1);
        }
        (self.center.0 - hx, self.center.1 - hy)
    }

    /// Lower-right corner of the region, in sub-pixel coordinates.
    pub fn bottom_right(&self) -> (r: (i64, i64))
        requires
            self.wf(),
        ensures
            r.0 as int == self.center.0 as int + spec_half_extent(self.scale as int, self.crop_size.0),
            r.1 as int == self.center.1 as int + spec_half_extent(self.scale as int, self.crop_size.1),
    {
        let hx = half_extent(self.scale, self.crop_size.0);
        let hy = half_extent(self.scale, self.crop_size.1);
        proof {
            lemma_half_extent_range(self.scale as int, self.crop_size.0);
            lemma_half_extent_range(self.scale as int, self.crop_size.1);
        }
        (self.center.0 + hx, self.center.1 + hy)
    }

    /// The whole-pixel rectangle covered by this region inside `bounds`-sized
    /// pixel bounds: the region is intersected with the bounds, the
    /// upper-left corner rounded down to whole pixels and the lower-right
    /// corner rounded up.
    pub open spec fn spec_pixel_rect(self, bounds: (u32, u32)) -> (u32, u32, u32, u32) {
        let hx = spec_half_extent(self.scale as int, self.crop_size.0);
        let hy = spec_half_extent(self.scale as int, self.crop_size.1);
        let bx = bounds.0 as int * PIXEL as int;
        let by = bounds.1 as int * PIXEL as int;
        let x0 = spec_clamp(self.center.0 as int - hx, 0, bx);
        let y0 = spec_clamp(self.center.1 as int - hy, 0, by);
        let x1 = spec_clamp(self.center.0 as int + hx, x0, bx);
        let y1 = spec_clamp(self.center.1 as int + hy, y0, by);
        let px0 = x0 / PIXEL as int;
        let py0 = y0 / PIXEL as int;
        let px1 = (x1 + PIXEL as int - 1) / PIXEL as int;
        let py1 = (y1 + PIXEL as int - 1) / PIXEL as int;
        (px0 as u32, py0 as u32, (px1 - px0) as u32, (py1 - py0) as u32)
    }

    /// Compute the whole-pixel rectangle covered by this region.
    pub fn pixel_rect(&self, bounds: (u32, u32)) -> (r: (u32, u32, u32, u32))
        requires
            self.wf(),
        ensures
            r == self.spec_pixel_rect(bounds),
            r.0 + r.2 <= bounds.0,
            r.1 + r.3 <= bounds.1,
    {
        proof {
            lemma_half_extent_range(self.scale as int, self.crop_size.0);
            lemma_half_extent_range(self.scale as int, self.crop_size.1);
        }
        let hx = half_extent(self.scale, self.crop_size.0);
        let hy = half_extent(self.scale, self.crop_size.1);
        let bx: i64 = bounds.0 as i64 * PIXEL;
        let by: i64 = bounds.1 as i64 * PIXEL;
        let x0 = clamp(self.center.0 - hx, 0, bx);
        let y0 = clamp(self.center.1 - hy, 0, by);
        let x1 = clamp(self.center.0 + hx, x0, bx);
        let y1 = clamp(self.center.1 + hy, y0, by);
        let px0: i64 = x0 / PIXEL;
        let py0: i64 = y0 / PIXEL;
        let px1: i64 = (x1 + PIXEL - 1) / PIXEL;
        let py1: i64 = (y1 + PIXEL - 1) / PIXEL;
        proof {
            lemma_pixel_range(x0 as int, x1 as int, bounds.0 as int);
            lemma_pixel_range(y0 as int, y1 as int, bounds.1 as int);
        }
        (px0 as u32, py0 as u32, (px1 - px0) as u32, (py1 - py0) as u32)
    }
}

/// Rounding a clamped sub-pixel interval outward to whole pixels keeps it
/// within the pixel bounds, lower edge at or before the upper edge.
proof fn lemma_pixel_range(x0: int, x1: int, bound: int)
    requires
        0 <= x0 <= x1 <= bound * PIXEL as int,
        0 <= bound <= u32::MAX,
    ensures
        0 <= x0 / PIXEL as int,
        x0 / PIXEL as int <= (x1 + PIXEL as int - 1) / PIXEL as int,
        (x1 + PIXEL as int - 1) / PIXEL as int <= bound,
{
    let p = PIXEL as int;
    assert(0 <= x0 / p && x0 / p <= (x1 + p - 1) / p) by (nonlinear_arith)
        requires
            0 <= x0 <= x1,
            p == 1_000_000,
    ;
    assert((x1 + p - 1) / p <= bound) by (nonlinear_arith)
        requires
            0 <= x1 <= bound * p,
            0 <= bound,
            p == 1_000_000,
    ;
}

/// Multiplying back a floor quotient stays at or below the dividend.
proof fn lemma_mul_div_le(s: int, a: int, b: int)
    requires
        0 <= s,
        0 < b,
        0 <= a,
        s <= a / b,
    ensures
        s * b <= a,
{
    assert(s * b <= a) by (nonlinear_arith)
        requires
            0 <= s,
            0 < b,
            0 <= a,
            s <= a / b,
    ;
}

/// Clipping yields a well-formed region: the scale is at most one and the
/// center lies within the image bounds.
pub proof fn lemma_clip_wf(r: EditableCropRegion)
    requires
        r.crop_size.0 > 0,
        r.crop_size.1 > 0,
    ensures
        r.spec_clip().wf(),
{
    let bound = spec_scale_bound(r.tex_size, r.crop_size);
    let rx = r.tex_size.0 as int * SCALE_ONE as int / r.crop_size.0 as int;
    let ry = r.tex_size.1 as int * SCALE_ONE as int / r.crop_size.1 as int;
    lemma_div_nonneg(r.tex_size.0 as int * SCALE_ONE as int, r.crop_size.0 as int);
    lemma_div_nonneg(r.tex_size.1 as int * SCALE_ONE as int, r.crop_size.1 as int);
    let s = spec_min(r.scale as int, bound);
    lemma_half_extent_range(s, r.crop_size.0);
    lemma_half_extent_range(s, r.crop_size.1);
    let hx = spec_half_extent(s, r.crop_size.0);
    let hy = spec_half_extent(s, r.crop_size.1);
    lemma_mul_div_le(s, r.tex_size.0 as int * SCALE_ONE as int, r.crop_size.0 as int);
    lemma_mul_div_le(s, r.tex_size.1 as int * SCALE_ONE as int, r.crop_size.1 as int);
    assert(2 * hx <= s * r.crop_size.0 as int && 2 * hy <= s * r.crop_size.1 as int)
        by (nonlinear_arith)
        requires
            hx == s * r.crop_size.0 as int / 2,
            hy == s * r.crop_size.1 as int / 2,
            0 <= s,
    ;
    assert(hx <= r.tex_size.0 as int * PIXEL as int);
    assert(hy <= r.tex_size.1 as int * PIXEL as int);
}

/// Law: clipping is idempotent. Clipping an already-clipped region yields
/// the same region.
pub proof fn lemma_clip_idempotent(r: EditableCropRegion)
    requires
        r.crop_size.0 > 0,
        r.crop_size.1 > 0,
    ensures
        r.spec_clip().spec_clip() == r.spec_clip(),
{
    let c = r.spec_clip();
    let bound = spec_scale_bound(r.tex_size, r.crop_size);
    assert(0 <= bound <= SCALE_ONE as int) by {
        lemma_div_nonneg(r.tex_size.0 as int * SCALE_ONE as int, r.crop_size.0 as int);
        lemma_div_nonneg(r.tex_size.1 as int * SCALE_ONE as int, r.crop_size.1 as int);
    }
    let s = spec_min(r.scale as int, bound);
    assert(c.scale as int == s);
    let hx = spec_half_extent(s, r.crop_size.0);
    let hy = spec_half_extent(s, r.crop_size.1);
    lemma_half_extent_range(s, r.crop_size.0);
    lemma_half_extent_range(s, r.crop_size.1);
}

/// A quotient of nonnegative numbers is nonnegative.
proof fn lemma_div_nonneg(a: int, b: int)
    requires
        0 <= a,
        0 < b,
    ensures
        0 <= a / b,
{
    assert(0 <= a / b) by (nonlinear_arith)
        requires
            0 <= a,
            0 < b,
    ;
}

} // verus!
