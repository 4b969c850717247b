//! Background records: the per-item state the library owns.
//!
//! A record ties a display name and location to the content key of its
//! original, the index of the source that owns the original, a set of flags,
//! what is known about the original's readability and size, and an optional
//! manual crop edit.

use vstd::prelude::*;

use crate::geometry::{CropRegion, EditableCropRegion, PIXEL, SCALE_ONE};
use crate::keys::{KeyModel, KeyRelation, OriginalKey};
use crate::sources::{OriginalFile, OriginalFileModel};

verus! {

/// Status flags of a background record.
#[derive(Clone, Copy, Debug, PartialEq, Eq, Structural)]
pub struct DesktopBackgroundFlags {
    /// This background has not been edited since its original last changed.
    pub unedited: bool,
    /// This background's original has been deleted or altered, but the
    /// record was kept.
    pub original_missing: bool,
    /// This background is excluded from the set: hidden by default and
    /// skipped by the exporter.
    pub excluded: bool,
}

/// Bit assigned to `unedited` in the persisted form.
pub const FLAG_UNEDITED: u32 = 0x1;

/// Bit assigned to `original_missing` in the persisted form.
pub const FLAG_ORIGINAL_MISSING: u32 = 0x2;

/// Bit assigned to `excluded` in the persisted form.
pub const FLAG_EXCLUDED: u32 = 0x8;

impl DesktopBackgroundFlags {
    /// A fresh record's flags: unedited, present, included.
    pub fn new_unedited() -> (r: DesktopBackgroundFlags)
        ensures
            r == (DesktopBackgroundFlags {
                unedited: true,
                original_missing: false,
                excluded: false,
            }),
    {
        DesktopBackgroundFlags { unedited: true, original_missing: false, excluded: false }
    }

    /// The persisted bit pattern of these flags.
    pub open spec fn spec_bits(self) -> u32 {
        (if self.unedited {
            FLAG_UNEDITED
        } else {
            0
        }) | (if self.original_missing {
            FLAG_ORIGINAL_MISSING
        } else {
            0
        }) | (if self.excluded {
            FLAG_EXCLUDED
        } else {
            0
        })
    }

    /// Encode these flags as their persisted bit pattern.
    pub fn to_bits(&self) -> (r: u32)
        ensures
            r == self.spec_bits(),
    {
        let u: u32 = if self.unedited {
            FLAG_UNEDITED
        } else {
            0
        };
        let m: u32 = if self.original_missing {
            FLAG_ORIGINAL_MISSING
        } else {
            0
        };
        let x: u32 = if self.excluded {
            FLAG_EXCLUDED
        } else {
            0
        };
        u | m | x
    }

    /// Whether a persisted bit pattern uses only assigned bits.
    pub open spec fn spec_bits_valid(bits: u32) -> bool {
        bits & !(FLAG_UNEDITED | FLAG_ORIGINAL_MISSING | FLAG_EXCLUDED) == 0
    }

    /// The flags a valid persisted bit pattern denotes.
    pub open spec fn spec_from_bits(bits: u32) -> DesktopBackgroundFlags {
        DesktopBackgroundFlags {
            unedited: bits & FLAG_UNEDITED != 0,
            original_missing: bits & FLAG_ORIGINAL_MISSING != 0,
            excluded: bits & FLAG_EXCLUDED != 0,
        }
    }

    /// Decode a persisted bit pattern; a pattern with unassigned bits set is
    /// refused.
    pub fn from_bits(bits: u32) -> (r: Option<DesktopBackgroundFlags>)
        ensures
            (match r {
                Some(flags) => Self::spec_bits_valid(bits) && flags == Self::spec_from_bits(bits)
                    && flags.spec_bits() == bits,
                None => !Self::spec_bits_valid(bits),
            }),
    {
        if bits & !(FLAG_UNEDITED | FLAG_ORIGINAL_MISSING | FLAG_EXCLUDED) != 0 {
            None
        } else {
            let flags = DesktopBackgroundFlags {
                unedited: bits & FLAG_UNEDITED != 0,
                original_missing: bits & FLAG_ORIGINAL_MISSING != 0,
                excluded: bits & FLAG_EXCLUDED != 0,
            };
            proof {
                assert(((if bits & 1u32 != 0 {
                    1u32
                } else {
                    0u32
                }) | (if bits & 2u32 != 0 {
                    2u32
                } else {
                    0u32
                }) | (if bits & 8u32 != 0 {
                    8u32
                } else {
                    0u32
                })) == bits) by (bit_vector)
                    requires
                        bits & !(1u32 | 2u32 | 8u32) == 0u32,
                ;
            }
            Some(flags)
        }
    }
}

/// What is known about a record's original: currently readable with a known
/// size, unreadable right now, or not checked since the set was loaded.
#[derive(Clone, Copy)]
pub enum OriginalMeta {
    /// The original was readable; its pixel size is known.
    Known { size: (u32, u32) },
    /// The original could not be read; possibly a transient condition.
    Unavailable { last_known_size: Option<(u32, u32)> },
    /// Loaded from persistence and not checked against the original yet.
    Stale { last_known_size: Option<(u32, u32)> },
}

impl OriginalMeta {
    /// The last size observed for the original, if any.
    pub open spec fn spec_last_known_size(self) -> Option<(u32, u32)> {
        match self {
            OriginalMeta::Known { size } => Some(size),
            OriginalMeta::Unavailable { last_known_size } => last_known_size,
            OriginalMeta::Stale { last_known_size } => last_known_size,
        }
    }

    /// The last size observed for the original, if any.
    pub fn last_known_size(&self) -> (r: Option<(u32, u32)>)
        ensures
            r == self.spec_last_known_size(),
    {
        match self {
            OriginalMeta::Known { size } => Some(*size),
            OriginalMeta::Unavailable { last_known_size } => *last_known_size,
            OriginalMeta::Stale { last_known_size } => *last_known_size,
        }
    }

    /// What one read attempt teaches: a successful read gives a known size;
    /// a failed one marks the original unavailable, remembering the size
    /// last observed before the failure.
    pub open spec fn spec_load(read: Option<(u32, u32)>, old_meta: Option<OriginalMeta>) -> OriginalMeta {
        match read {
            Some(size) => OriginalMeta::Known { size },
            None => OriginalMeta::Unavailable {
                last_known_size: match old_meta {
                    Some(m) => m.spec_last_known_size(),
                    None => None,
                },
            },
        }
    }
}

/// A manual crop edit: a center in sub-pixel coordinates and a scale in
/// millionths, relative to the original's pixel bounds.
#[derive(Clone, Copy)]
pub struct EditInfo {
    pub center: (i64, i64),
    pub scale: u32,
}

/// Error returned when a crop region is requested for a background whose
/// original is not currently known to be readable.
#[derive(Clone, Copy, Debug)]
pub struct UnavailableError;

/// A crop edit whose scale is at most one and whose center lies within the
/// sub-pixel bounds of a `u32`-sized image.
pub open spec fn spec_edit_wf(e: EditInfo) -> bool {
    &&& e.scale <= SCALE_ONE
    &&& 0 <= e.center.0 <= u32::MAX as int * PIXEL as int
    &&& 0 <= e.center.1 <= u32::MAX as int * PIXEL as int
}

/// Check that a crop edit stays within the bounds `spec_edit_wf` asks for.
pub fn check_edit_wf(e: &EditInfo) -> (r: bool)
    ensures
        r == spec_edit_wf(*e),
{
    let max: i64 = (u32::MAX as i64) * PIXEL;
    e.scale <= SCALE_ONE && 0 <= e.center.0 && e.center.0 <= max && 0 <= e.center.1 && e.center.1
        <= max
}

/// Model of a background record.
pub ghost struct BackgroundModel {
    pub name: Seq<char>,
    pub location: Seq<char>,
    pub comments: Seq<char>,
    pub source: int,
    pub original: KeyModel,
    pub flags: DesktopBackgroundFlags,
    pub original_meta: OriginalMeta,
    pub edit_info: Option<EditInfo>,
}

impl BackgroundModel {
    /// Any stored edit stays within a scale of one and centers within the
    /// sub-pixel bounds of a `u32`-sized image (the editing methods keep it
    /// so by clipping every edit they store); and a record is never
    /// simultaneously marked as missing its original and as holding a
    /// readable one.
    pub open spec fn wf(self) -> bool {
        &&& (self.edit_info matches Some(e) ==> spec_edit_wf(e))
        &&& (self.flags.original_missing ==> !(self.original_meta is Known))
    }

    /// What a record constructed from an original looks like.
    pub open spec fn spec_from_original(
        source: int,
        key: KeyModel,
        original: OriginalFileModel,
        read: Option<(u32, u32)>,
    ) -> BackgroundModel {
        BackgroundModel {
            name: original.filename,
            location: original.path,
            comments: Seq::<char>::empty(),
            source,
            original: key,
            flags: DesktopBackgroundFlags {
                unedited: true,
                original_missing: false,
                excluded: false,
            },
            original_meta: OriginalMeta::spec_load(read, None),
            edit_info: None,
        }
    }

    /// What updating a record from its (re-pointed) original does: name,
    /// location and key are refreshed, the read outcome replaces the meta,
    /// the crop edit is cleared exactly when the observed size changed, and
    /// the record counts as unedited again. A successful read also clears
    /// the missing-original mark: the original evidently exists.
    pub open spec fn spec_update_from(
        self,
        key: KeyModel,
        original: OriginalFileModel,
        read: Option<(u32, u32)>,
    ) -> BackgroundModel {
        let meta = OriginalMeta::spec_load(read, Some(self.original_meta));
        BackgroundModel {
            name: original.filename,
            location: original.path,
            original: key,
            original_meta: meta,
            edit_info: if meta.spec_last_known_size() != self.original_meta.spec_last_known_size() {
                None
            } else {
                self.edit_info
            },
            flags: DesktopBackgroundFlags {
                unedited: true,
                original_missing: if read is Some {
                    false
                } else {
                    self.flags.original_missing
                },
                ..self.flags
            },
            ..self
        }
    }
}

/// A background record.
pub struct DesktopBackground {
    pub name: String,
    pub location: String,
    pub comments: String,
    pub source: usize,
    pub original: OriginalKey,
    pub flags: DesktopBackgroundFlags,
    pub original_meta: OriginalMeta,
    /// The stored manual crop edit, if any. The editing methods keep it
    /// clipped; code that writes it directly must keep `wf()` true itself.
    pub edit_info: Option<EditInfo>,
}

impl View for DesktopBackground {
    type V = BackgroundModel;

    open spec fn view(&self) -> BackgroundModel {
        BackgroundModel {
            name: self.name@,
            location: self.location@,
            comments: self.comments@,
            source: self.source as int,
            original: self.original@,
            flags: self.flags,
            original_meta: self.original_meta,
            edit_info: self.edit_info,
        }
    }
}

impl DesktopBackground {
    /// Create a new record from an original. `read` is the outcome of
    /// reading the original's image once to capture its dimensions; a
    /// failure leaves the record unavailable, which is not the same as
    /// missing: it may be transient, so `original_missing` stays clear.
    pub fn from_original(
        source: usize,
        key: OriginalKey,
        original: &OriginalFile,
        read: Option<(u32, u32)>,
    ) -> (r: DesktopBackground)
        ensures
            r@ == BackgroundModel::spec_from_original(source as int, key@, original@, read),
            r@.wf(),
    {
        DesktopBackground {
            name: original.name(),
            location: original.location(),
            comments: String::new(),
            source,
            original: key,
            flags: DesktopBackgroundFlags::new_unedited(),
            original_meta: match read {
                Some(size) => OriginalMeta::Known { size },
                None => OriginalMeta::Unavailable { last_known_size: None },
            },
            edit_info: None,
        }
    }

    /// Update this record after its original changed: re-point it at the new
    /// key and refresh what is known about the original. The crop edit is
    /// cleared only when the observed size differs from the previous one.
    pub fn update_from(
        &mut self,
        key: OriginalKey,
        original: &OriginalFile,
        read: Option<(u32, u32)>,
    )
        requires
            key@.relation(old(self)@.original) != KeyRelation::Distinct,
            old(self)@.wf(),
        ensures
            final(self)@ == old(self)@.spec_update_from(key@, original@, read),
            final(self)@.wf(),
    {
        self.name = original.name();
        self.location = original.location();
        self.original = key;
        let last_size = self.original_meta.last_known_size();
        self.original_meta = match read {
            Some(size) => OriginalMeta::Known { size },
            None => OriginalMeta::Unavailable { last_known_size: last_size },
        };
        let new_size = self.original_meta.last_known_size();
        if !size_option_eq(new_size, last_size) {
            self.edit_info = None;
        }
        self.flags.unedited = true;
        if read.is_some() {
            self.flags.original_missing = false;
        }
    }

    /// Whether the original image file for this background cannot currently
    /// be accessed.
    pub fn is_unavailable(&self) -> (r: bool)
        ensures
            r == (self@.original_meta is Unavailable),
    {
        match self.original_meta {
            OriginalMeta::Unavailable { .. } => true,
            _ => false,
        }
    }

    /// Mark the background's original as unreadable right now, remembering
    /// the size last observed.
    pub fn mark_unavailable(&mut self)
        ensures
            final(self)@ == (BackgroundModel {
                original_meta: OriginalMeta::Unavailable {
                    last_known_size: old(self)@.original_meta.spec_last_known_size(),
                },
                ..old(self)@
            }),
    {
        self.original_meta = OriginalMeta::Unavailable {
            last_known_size: self.original_meta.last_known_size(),
        };
    }

    /// What `crop_region` yields for a record whose original has this size:
    /// the stored edit, or the default centered, maximally fitting region.
    pub open spec fn spec_crop_region(
        b: BackgroundModel,
        crop_size: (u32, u32),
        size: (u32, u32),
    ) -> CropRegion {
        match b.edit_info {
            Some(e) => CropRegion { crop_size, center: e.center, scale: e.scale },
            None => CropRegion::spec_new_centered(crop_size, size),
        }
    }

    /// The crop region of this background for the given target size. Fails
    /// with an unavailable error unless the original is currently `Known`:
    /// callers must not assume a crop region always exists.
    pub fn crop_region(&self, crop_size: (u32, u32)) -> (r: Result<CropRegion, UnavailableError>)
        requires
            crop_size.0 > 0,
            crop_size.1 > 0,
            self@.wf(),
        ensures
            (match r {
                Ok(region) => self@.original_meta matches OriginalMeta::Known { size }
                    && region == Self::spec_crop_region(self@, crop_size, size) && region.wf(),
                Err(_) => !(self@.original_meta is Known),
            }),
    {
        let size = match self.original_meta {
            OriginalMeta::Known { size } => size,
            _ => {
                return Err(UnavailableError);
            },
        };
        match &self.edit_info {
            Some(e) => Ok(CropRegion { crop_size, center: e.center, scale: e.scale }),
            None => Ok(CropRegion::new_centered(crop_size, size)),
        }
    }

    /// What editing materializes and stores: the stored edit, or a fresh
    /// centered full-scale one, clipped against the original's bounds.
    pub open spec fn spec_edit_region(
        b: BackgroundModel,
        crop_size: (u32, u32),
        size: (u32, u32),
    ) -> EditableCropRegion {
        let e0 = match b.edit_info {
            Some(e) => e,
            None => EditInfo {
                center: (
                    (size.0 as int * PIXEL as int / 2) as i64,
                    (size.1 as int * PIXEL as int / 2) as i64,
                ),
                scale: SCALE_ONE,
            },
        };
        (EditableCropRegion {
            crop_size,
            tex_size: size,
            center: e0.center,
            scale: e0.scale,
        }).spec_clip()
    }

    /// Begin (or continue) editing the crop region: materialize the stored
    /// edit, or the default one, clip it against the original's bounds,
    /// store it back and return it. Fails unless the original is currently
    /// `Known`.
    pub fn edit_crop_region(&mut self, crop_size: (u32, u32)) -> (r: Result<
        EditableCropRegion,
        UnavailableError,
    >)
        requires
            crop_size.0 > 0,
            crop_size.1 > 0,
            old(self)@.wf(),
        ensures
            (match r {
                Ok(region) => old(self)@.original_meta matches OriginalMeta::Known { size } && {
                    &&& region == Self::spec_edit_region(old(self)@, crop_size, size)
                    &&& final(self)@ == (BackgroundModel {
                        edit_info: Some(EditInfo { center: region.center, scale: region.scale }),
                        ..old(self)@
                    })
                    &&& final(self)@.wf()
                },
                Err(_) => !(old(self)@.original_meta is Known) && final(self)@ == old(self)@,
            }),
    {
        let size = match self.original_meta {
            OriginalMeta::Known { size } => size,
            _ => {
                return Err(UnavailableError);
            },
        };
        let e0 = match &self.edit_info {
            Some(e) => *e,
            None => EditInfo {
                center: (size.0 as i64 * PIXEL / 2, size.1 as i64 * PIXEL / 2),
                scale: SCALE_ONE,
            },
        };
        let mut region = EditableCropRegion {
            crop_size,
            tex_size: size,
            center: e0.center,
            scale: e0.scale,
        };
        region.clip();
        self.edit_info = Some(EditInfo { center: region.center, scale: region.scale });
        Ok(region)
    }

    /// Store a manual crop edit, clipped against the original's bounds, and
    /// mark the record edited. Fails unless the original is currently
    /// `Known`.
    pub fn set_crop_region(
        &mut self,
        crop_size: (u32, u32),
        center: (i64, i64),
        scale: u32,
    ) -> (r: Result<(), UnavailableError>)
        requires
            crop_size.0 > 0,
            crop_size.1 > 0,
            old(self)@.wf(),
        ensures
            (match r {
                Ok(_) => old(self)@.original_meta matches OriginalMeta::Known { size } && {
                    let clipped = (EditableCropRegion {
                        crop_size,
                        tex_size: size,
                        center,
                        scale,
                    }).spec_clip();
                    &&& final(self)@ == (BackgroundModel {
                        edit_info: Some(
                            EditInfo { center: clipped.center, scale: clipped.scale },
                        ),
                        flags: DesktopBackgroundFlags { unedited: false, ..old(self)@.flags },
                        ..old(self)@
                    })
                    &&& final(self)@.wf()
                },
                Err(_) => !(old(self)@.original_meta is Known) && final(self)@ == old(self)@,
            }),
    {
        let size = match self.original_meta {
            OriginalMeta::Known { size } => size,
            _ => {
                return Err(UnavailableError);
            },
        };
        let mut region = EditableCropRegion { crop_size, tex_size: size, center, scale };
        region.clip();
        self.edit_info = Some(EditInfo { center: region.center, scale: region.scale });
        self.flags.unedited = false;
        Ok(())
    }
}

/// Which records a listing shows by default: excluded records are hidden
/// unless asked for, and edited records only when edited ones are shown.
pub struct Filter {
    pub show_edited: bool,
    pub show_excluded: bool,
}

impl Filter {
    /// Whether a record passes this filter.
    pub fn should_display(&self, background: &DesktopBackground) -> (r: bool)
        ensures
            r == (if background@.flags.excluded {
                self.show_excluded
            } else {
                self.show_edited || background@.flags.unedited
            }),
    {
        if background.flags.excluded {
            return self.show_excluded;
        }
        self.show_edited || background.flags.unedited
    }
}

impl Default for Filter {
    /// The default view: edited records shown, excluded ones hidden.
    fn default() -> (r: Filter)
        ensures
            r.show_edited,
            !r.show_excluded,
    {
        Filter { show_edited: true, show_excluded: false }
    }
}

/// Compare two optional sizes.
fn size_option_eq(a: Option<(u32, u32)>, b: Option<(u32, u32)>) -> (r: bool)
    ensures
        r == (a == b),
{
    match (a, b) {
        (None, None) => true,
        (Some(x), Some(y)) => x.0 == y.0 && x.1 == y.1,
        _ => false,
    }
}

} // verus!
