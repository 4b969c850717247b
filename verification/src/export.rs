//! The content-addressed exporter.
//!
//! Rebuilding the image folder crops every non-excluded background per its
//! current geometry and produces a deduplicated, digest-named PNG for each.
//! Records that cannot be exported are skipped with a reason, never fatally:
//! the caller gets one aggregated report. The library plans the export —
//! which bytes go under which name, and who is skipped — while the caller
//! clears the folder, reads each original's bytes and writes the files.

use vstd::prelude::*;
use vstd::string::StringExecFns;

use crate::background::{BackgroundModel, DesktopBackground, OriginalMeta};
use crate::geometry::CropRegion;
use crate::hashing::{base64_url, encode_base64_url, hash_pixels, pixel_digest};
use crate::imaging::{
    crop_image_pixels, crop_image_png, cropped_pixels, cropped_png, decoded_dimensions,
    image_dimensions,
};
use crate::keys::OriginalKey;
use crate::set::{BackgroundSet, BackgroundSetModel};
use crate::sources::{FileReading, FileReadingModel, OriginalResult, spec_source_original};

verus! {

/// Why a record was left out of an export.
pub enum SkipReason {
    /// The record's original could not be resolved, or no crop region could
    /// be obtained for it.
    OriginalUnavailable,
    /// The original's bytes could not be read or decoded; the payload is a
    /// human-readable cause.
    CorruptImage(String),
    /// The record is excluded from the set.
    Excluded,
}

/// Model of a skip reason.
pub ghost enum SkipReasonModel {
    OriginalUnavailable,
    CorruptImage(Seq<char>),
    Excluded,
}

impl View for SkipReason {
    type V = SkipReasonModel;

    open spec fn view(&self) -> SkipReasonModel {
        match self {
            SkipReason::OriginalUnavailable => SkipReasonModel::OriginalUnavailable,
            SkipReason::CorruptImage(cause) => SkipReasonModel::CorruptImage(cause@),
            SkipReason::Excluded => SkipReasonModel::Excluded,
        }
    }
}

/// One file the export will write: digest-derived name and PNG bytes.
pub struct ExportOutput {
    pub file_name: String,
    pub data: Vec<u8>,
}

/// Model of an export output.
pub ghost struct ExportOutputModel {
    pub file_name: Seq<char>,
    pub data: Seq<u8>,
}

impl View for ExportOutput {
    type V = ExportOutputModel;

    open spec fn view(&self) -> ExportOutputModel {
        ExportOutputModel { file_name: self.file_name@, data: self.data@ }
    }
}

/// What exporting one record yields, given the observed bytes of its
/// original: the file to write, or the reason to skip the record.
///
/// The checks come in order: an excluded record is skipped first; then a
/// record whose original cannot be resolved in its source; then one whose
/// bytes could not be read, or do not decode as an image; then one without
/// an obtainable crop region. The file is named by the digest of the
/// cropped pixel bytes, so records cropping to identical pixels share one
/// file.
pub open spec fn spec_export_entry(
    s: BackgroundSetModel,
    id: int,
    reading: FileReadingModel,
) -> Result<ExportOutputModel, SkipReasonModel> {
    let b = s.backgrounds[id].unwrap();
    if b.flags.excluded {
        Err(SkipReasonModel::Excluded)
    } else if spec_source_original(
        s.sources[b.source].unwrap(),
        b.original,
    ).spec_as_option() is None {
        Err(SkipReasonModel::OriginalUnavailable)
    } else {
        match reading {
            FileReadingModel::Error(cause) => Err(SkipReasonModel::CorruptImage(cause)),
            FileReadingModel::Content(bytes) => {
                if decoded_dimensions(bytes) is None {
                    Err(SkipReasonModel::CorruptImage("could not decode image"@))
                } else {
                    match b.original_meta {
                        OriginalMeta::Known { size } => {
                            let region = DesktopBackground::spec_crop_region(
                                b,
                                s.resolution,
                                size,
                            );
                            let rect = region.spec_pixel_rect(size);
                            match (
                                cropped_pixels(bytes, rect.0, rect.1, rect.2, rect.3),
                                cropped_png(bytes, rect.0, rect.1, rect.2, rect.3),
                            ) {
                                (Some(pixels), Some(png)) => Ok(
                                    ExportOutputModel {
                                        file_name: base64_url(pixel_digest(pixels)) + ".png"@,
                                        data: png,
                                    },
                                ),
                                _ => Err(
                                    SkipReasonModel::CorruptImage("could not crop image"@),
                                ),
                            }
                        },
                        _ => Err(SkipReasonModel::OriginalUnavailable),
                    }
                }
            },
        }
    }
}

/// Whether exporting this record refreshes it as unavailable: its original
/// resolved, but its bytes could not be read or decoded.
pub open spec fn spec_export_marks(
    s: BackgroundSetModel,
    id: int,
    reading: FileReadingModel,
) -> bool {
    let b = s.backgrounds[id].unwrap();
    &&& !b.flags.excluded
    &&& spec_source_original(s.sources[b.source].unwrap(), b.original).spec_as_option() is Some
    &&& match reading {
        FileReadingModel::Error(_) => true,
        FileReadingModel::Content(bytes) => decoded_dimensions(bytes) is None,
    }
}

/// The set after exporting one record: the record is marked unavailable
/// exactly when its bytes failed to read or decode.
pub open spec fn spec_export_entry_set(
    s: BackgroundSetModel,
    id: int,
    reading: FileReadingModel,
) -> BackgroundSetModel {
    if spec_export_marks(s, id, reading) {
        BackgroundSetModel {
            backgrounds: s.backgrounds.update(
                id,
                Some(
                    BackgroundModel {
                        original_meta: OriginalMeta::Unavailable {
                            last_known_size: s.backgrounds[
                                id
                            ].unwrap().original_meta.spec_last_known_size(),
                        },
                        ..s.backgrounds[id].unwrap()
                    },
                ),
            ),
            ..s
        }
    } else {
        s
    }
}

/// One record to export, paired with the observed bytes of its original.
pub struct ExportReading {
    pub id: usize,
    pub reading: FileReading,
}

/// Model of an export reading.
pub ghost struct ExportReadingModel {
    pub id: int,
    pub reading: FileReadingModel,
}

impl View for ExportReading {
    type V = ExportReadingModel;

    open spec fn view(&self) -> ExportReadingModel {
        ExportReadingModel { id: self.id as int, reading: self.reading@ }
    }
}

/// One skipped record and the reason it was skipped.
pub struct ExportSkip {
    pub id: usize,
    pub reason: SkipReason,
}

/// Model of a skipped record.
pub ghost struct ExportSkipModel {
    pub id: int,
    pub reason: SkipReasonModel,
}

impl View for ExportSkip {
    type V = ExportSkipModel;

    open spec fn view(&self) -> ExportSkipModel {
        ExportSkipModel { id: self.id as int, reason: self.reason@ }
    }
}

/// The result of planning an export: the files to write, in input order,
/// and the aggregated skip report.
pub struct ExportPlan {
    pub outputs: Vec<ExportOutput>,
    pub skipped: Vec<ExportSkip>,
}

/// The plan's file list as models.
pub open spec fn outputs_view(s: Seq<ExportOutput>) -> Seq<ExportOutputModel> {
    s.map_values(|o: ExportOutput| o@)
}

/// The plan's skip list as models.
pub open spec fn skips_view(s: Seq<ExportSkip>) -> Seq<ExportSkipModel> {
    s.map_values(|o: ExportSkip| o@)
}

/// The given readings as models.
pub open spec fn readings_view(s: Seq<ExportReading>) -> Seq<ExportReadingModel> {
    s.map_values(|o: ExportReading| o@)
}

/// What planning an export yields: each reading, in order, contributes its
/// file to the outputs or its reason to the skip report.
pub open spec fn spec_export_lists(
    s: BackgroundSetModel,
    readings: Seq<ExportReadingModel>,
) -> (Seq<ExportOutputModel>, Seq<ExportSkipModel>)
    decreases readings.len(),
{
    if readings.len() == 0 {
        (Seq::<ExportOutputModel>::empty(), Seq::<ExportSkipModel>::empty())
    } else {
        let rest = spec_export_lists(s, readings.drop_first());
        match spec_export_entry(s, readings[0].id, readings[0].reading) {
            Ok(out) => (seq![out] + rest.0, rest.1),
            Err(reason) => (
                rest.0,
                seq![ExportSkipModel { id: readings[0].id, reason }] + rest.1,
            ),
        }
    }
}

impl BackgroundSet {
    /// Export one record, given the observed bytes of its original: compute
    /// its crop region at the export resolution, crop, and name the result
    /// by the digest of the cropped pixels. A record whose bytes fail to
    /// read or decode is refreshed as unavailable, as any read attempt is.
    pub fn export_entry(&mut self, id: usize, reading: &FileReading) -> (r: Result<
        ExportOutput,
        SkipReason,
    >)
        requires
            old(self)@.wf(),
            id < old(self)@.backgrounds.len(),
            old(self)@.backgrounds[id as int] is Some,
        ensures
            final(self)@ == spec_export_entry_set(old(self)@, id as int, reading@),
            final(self)@.wf(),
            (match r {
                Ok(out) => spec_export_entry(old(self)@, id as int, reading@) == Ok::<
                    ExportOutputModel,
                    SkipReasonModel,
                >(out@),
                Err(reason) => spec_export_entry(old(self)@, id as int, reading@) == Err::<
                    ExportOutputModel,
                    SkipReasonModel,
                >(reason@),
            }),
    {
        let resolution = self.resolution();
        let (excluded, source, key, region_result) = {
            let b = match self.background(id) {
                Some(b) => b,
                None => {
                    proof {
                        assert(false);
                    }
                    return Err(SkipReason::Excluded);
                },
            };
            proof {
                assert(old(self)@.backgrounds[id as int] matches Some(bm) && bm == b@);
            }
            (b.flags.excluded, b.source, b.original.clone(), b.crop_region(resolution))
        };
        if excluded {
            return Err(SkipReason::Excluded);
        }
        let resolved = match self.source_original(source, &key) {
            OriginalResult::Original(_) => true,
            OriginalResult::ContentMismatch(_) => true,
            OriginalResult::WrongSource => false,
            OriginalResult::NotFound => false,
        };
        if !resolved {
            return Err(SkipReason::OriginalUnavailable);
        }
        let bytes = match reading {
            FileReading::Error(cause) => {
                self.mark_background_unavailable(id);
                return Err(SkipReason::CorruptImage(cause.clone()));
            },
            FileReading::Content(bytes) => bytes,
        };
        if image_dimensions(bytes).is_none() {
            self.mark_background_unavailable(id);
            return Err(SkipReason::CorruptImage("could not decode image".to_owned()));
        }
        let size = match &self.background(id) {
            Some(b) => match b.original_meta {
                OriginalMeta::Known { size } => size,
                _ => {
                    return Err(SkipReason::OriginalUnavailable);
                },
            },
            None => {
                proof {
                    assert(false);
                }
                return Err(SkipReason::OriginalUnavailable);
            },
        };
        let region = match region_result {
            Ok(region) => region,
            Err(_) => {
                proof {
                    assert(false);
                }
                return Err(SkipReason::OriginalUnavailable);
            },
        };
        let rect = region.pixel_rect(size);
        let pixels = match crop_image_pixels(bytes, rect.0, rect.1, rect.2, rect.3) {
            Some(pixels) => pixels,
            None => {
                return Err(SkipReason::CorruptImage("could not crop image".to_owned()));
            },
        };
        let png = match crop_image_png(bytes, rect.0, rect.1, rect.2, rect.3) {
            Some(png) => png,
            None => {
                return Err(SkipReason::CorruptImage("could not crop image".to_owned()));
            },
        };
        proof {
            assert(pixels.deep_view() =~= pixels@);
            assert(png.deep_view() =~= png@);
        }
        let digest = hash_pixels(&pixels);
        let file_name = encode_base64_url(&digest).concat(".png");
        Ok(ExportOutput { file_name, data: png })
    }

    /// Plan a rebuild of the image folder: export every listed record.
    /// Records cropping to byte-identical pixels get the same file name, so
    /// writing the plan deduplicates them naturally. The skip report lists
    /// every record that was left out and why.
    #[verifier::rlimit(100)]
    #[verifier::spinoff_prover]
    pub fn rebuild_image_folder(&mut self, readings: Vec<ExportReading>) -> (r: ExportPlan)
        requires
            old(self)@.wf(),
            forall|k: int|
                0 <= k < readings@.len() ==> {
                    &&& 0 <= (#[trigger] readings@[k])@.id < old(self)@.backgrounds.len()
                    &&& old(self)@.backgrounds[readings@[k]@.id] is Some
                },
            forall|k: int, l: int|
                0 <= k < l < readings@.len() ==> readings@[k]@.id != readings@[l]@.id,
        ensures
            outputs_view(r.outputs@) == spec_export_lists(
                old(self)@,
                readings_view(readings@),
            ).0,
            skips_view(r.skipped@) == spec_export_lists(old(self)@, readings_view(readings@)).1,
            final(self)@.backgrounds.len() == old(self)@.backgrounds.len(),
            final(self)@.sources == old(self)@.sources,
            final(self)@.image_folder == old(self)@.image_folder,
            final(self)@.name == old(self)@.name,
            final(self)@.resolution == old(self)@.resolution,
            forall|k: int|
                0 <= k < readings@.len() ==> final(self)@.backgrounds[(
                #[trigger] readings@[k])@.id] == spec_export_entry_set(
                    old(self)@,
                    readings@[k]@.id,
                    readings@[k]@.reading,
                ).backgrounds[readings@[k]@.id],
            forall|i: int|
                0 <= i < old(self)@.backgrounds.len() && (forall|k: int|
                    0 <= k < readings@.len() ==> (#[trigger] readings@[k])@.id != i)
                    ==> final(self)@.backgrounds[i] == old(self)@.backgrounds[i],
            final(self)@.wf(),
    {
        let ghost m0 = self@;
        let ghost rv = readings_view(readings@);
        let ghost lists = spec_export_lists(m0, rv);
        let mut outputs: Vec<ExportOutput> = Vec::new();
        let mut skipped: Vec<ExportSkip> = Vec::new();
        let mut j: usize = 0;
        proof {
            assert(rv.skip(0) =~= rv);
            assert(outputs_view(outputs@) =~= Seq::<ExportOutputModel>::empty());
            assert(skips_view(skipped@) =~= Seq::<ExportSkipModel>::empty());
            assert(lists.0 =~= outputs_view(outputs@) + spec_export_lists(m0, rv.skip(0)).0);
            assert(lists.1 =~= skips_view(skipped@) + spec_export_lists(m0, rv.skip(0)).1);
        }
        while j < readings.len()
            invariant
                j <= readings@.len(),
                rv == readings_view(readings@),
                rv.len() == readings@.len(),
                lists == spec_export_lists(m0, rv),
                forall|k: int|
                    0 <= k < rv.len() ==> {
                        &&& 0 <= (#[trigger] rv[k]).id < m0.backgrounds.len()
                        &&& m0.backgrounds[rv[k].id] is Some
                    },
                forall|k: int, l: int| 0 <= k < l < rv.len() ==> rv[k].id != rv[l].id,
                m0.wf(),
                self@.backgrounds.len() == m0.backgrounds.len(),
                self@.sources == m0.sources,
                self@.image_folder == m0.image_folder,
                self@.name == m0.name,
                self@.resolution == m0.resolution,
                self@.wf(),
                lists.0 == outputs_view(outputs@) + spec_export_lists(m0, rv.skip(j as int)).0,
                lists.1 == skips_view(skipped@) + spec_export_lists(m0, rv.skip(j as int)).1,
                forall|k: int|
                    0 <= k < j ==> self@.backgrounds[(#[trigger] rv[k]).id]
                        == spec_export_entry_set(m0, rv[k].id, rv[k].reading).backgrounds[rv[k].id],
                forall|i: int|
                    0 <= i < m0.backgrounds.len() && (forall|k: int|
                        0 <= k < j ==> (#[trigger] rv[k]).id != i) ==> self@.backgrounds[i]
                        == m0.backgrounds[i],
            decreases readings@.len() - j,
        {
            let ghost suffix = rv.skip(j as int);
            proof {
                assert(suffix[0] == rv[j as int]);
                assert(suffix.drop_first() =~= rv.skip(j as int + 1));
                assert(rv[j as int] == readings@[j as int]@);
                // this record is untouched so far: its id differs from every
                // processed one
                assert(self@.backgrounds[rv[j as int].id] == m0.backgrounds[rv[j as int].id]);
            }
            let ghost before = self@;
            let ghost outputs_before = outputs_view(outputs@);
            let ghost skips_before = skips_view(skipped@);
            let id = readings[j].id;
            let outcome = self.export_entry(id, &readings[j].reading);
            proof {
                // the outcome against the current set equals the outcome
                // against the starting set: the slot and everything else the
                // entry reads are unchanged
                assert(spec_export_entry(before, id as int, rv[j as int].reading)
                    == spec_export_entry(m0, id as int, rv[j as int].reading));
                assert(spec_export_marks(before, id as int, rv[j as int].reading)
                    == spec_export_marks(m0, id as int, rv[j as int].reading));
            }
            match outcome {
                Ok(out) => {
                    outputs.push(out);
                },
                Err(reason) => {
                    skipped.push(ExportSkip { id, reason });
                },
            }
            j = j + 1;
            proof {
                let rest = spec_export_lists(m0, rv.skip(j as int));
                match spec_export_entry(m0, suffix[0].id, suffix[0].reading) {
                    Ok(out) => {
                        assert(outputs_view(outputs@) =~= outputs_before.push(out));
                        assert(outputs_before + (seq![out] + rest.0) =~= outputs_before.push(
                            out,
                        ) + rest.0);
                        assert(skips_view(skipped@) =~= skips_before);
                    },
                    Err(reason) => {
                        let sk = ExportSkipModel { id: suffix[0].id, reason };
                        assert(skips_view(skipped@) =~= skips_before.push(sk));
                        assert(skips_before + (seq![sk] + rest.1) =~= skips_before.push(sk)
                            + rest.1);
                        assert(outputs_view(outputs@) =~= outputs_before);
                    },
                }
                // the set transformation for this slot, and only this slot
                assert forall|i: int|
                    0 <= i < m0.backgrounds.len() && i != rv[j - 1].id implies self@.backgrounds[i]
                    == before.backgrounds[i] by {}
            }
        }
        proof {
            assert(rv.skip(rv.len() as int) =~= Seq::<ExportReadingModel>::empty());
            assert(lists.0 =~= outputs_view(outputs@));
            assert(lists.1 =~= skips_view(skipped@));
            assert(forall|k: int|
                0 <= k < readings@.len() ==> rv[k] == (#[trigger] readings@[k])@);
            assert forall|k: int| 0 <= k < readings@.len() implies self@.backgrounds[(
            #[trigger] readings@[k])@.id] == spec_export_entry_set(
                m0,
                readings@[k]@.id,
                readings@[k]@.reading,
            ).backgrounds[readings@[k]@.id] by {
                assert(rv[k] == readings@[k]@);
            }
            assert forall|i: int|
                0 <= i < m0.backgrounds.len() && (forall|k: int|
                    0 <= k < readings@.len() ==> (#[trigger] readings@[k])@.id != i)
                implies self@.backgrounds[i] == m0.backgrounds[i] by {
                assert(forall|k: int| 0 <= k < rv.len() ==> (#[trigger] rv[k]).id != i);
            }
        }
        ExportPlan { outputs, skipped }
    }
}

} // verus!
