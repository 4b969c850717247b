//! The persisted form of a background set, and the logic that moves between
//! it and the live form.
//!
//! A persisted set names its export folder, display name and resolution, and
//! lists its sources; each source carries a type identifier, its own data,
//! and the background entries that belong to it. Loading re-resolves each
//! entry's key data through its (now-reassembled) owning source; a source
//! that fails to reassemble yields a load warning and drops its entries
//! rather than aborting the whole load.

use vstd::prelude::*;
use vstd::string::StringExecFns;

use crate::background::{
    check_edit_wf, spec_edit_wf, BackgroundModel, DesktopBackground, DesktopBackgroundFlags,
    EditInfo, OriginalMeta,
};
use crate::keys::{key_model_data, KeyData, OriginalKey};
use crate::set::{BackgroundSet, BackgroundSetModel};
use crate::sources::{
    check_unique_filenames, clone_files, files_view, spec_assemble_key, unique_filenames,
    FolderSource, FolderSourceModel, OriginalFile, OriginalFileModel,
};

verus! {

/// The persisted knowledge about an original: the last size observed.
#[derive(Clone, Copy)]
pub struct SavedOriginalMeta {
    pub last_known_size: Option<(u32, u32)>,
}

/// The persisted form of one background record.
pub struct SavedDesktopBackground {
    pub name: String,
    pub location: String,
    pub comments: String,
    pub key_data: KeyData,
    pub flags: u32,
    pub original_meta: SavedOriginalMeta,
    pub edit_info: Option<EditInfo>,
}

/// Model of a persisted background record.
pub ghost struct SavedBackgroundModel {
    pub name: Seq<char>,
    pub location: Seq<char>,
    pub comments: Seq<char>,
    pub key_filename: Seq<char>,
    pub key_hash: Seq<u8>,
    pub flags: u32,
    pub last_known_size: Option<(u32, u32)>,
    pub edit_info: Option<EditInfo>,
}

impl View for SavedDesktopBackground {
    type V = SavedBackgroundModel;

    open spec fn view(&self) -> SavedBackgroundModel {
        SavedBackgroundModel {
            name: self.name@,
            location: self.location@,
            comments: self.comments@,
            key_filename: self.key_data.filename@,
            key_hash: self.key_data.hash@,
            flags: self.flags,
            last_known_size: self.original_meta.last_known_size,
            edit_info: self.edit_info,
        }
    }
}

impl Clone for SavedDesktopBackground {
    fn clone(&self) -> (r: Self)
        ensures
            r@ == self@,
    {
        SavedDesktopBackground {
            name: self.name.clone(),
            location: self.location.clone(),
            comments: self.comments.clone(),
            key_data: self.key_data.clone(),
            flags: self.flags,
            original_meta: self.original_meta,
            edit_info: self.edit_info,
        }
    }
}

/// The persisted data of a folder source itself.
pub struct SavedSourceData {
    pub folder: String,
    pub name: String,
    pub originals: Vec<OriginalFile>,
}

/// Model of persisted folder-source data.
pub ghost struct SavedSourceDataModel {
    pub folder: Seq<char>,
    pub name: Seq<char>,
    pub originals: Seq<OriginalFileModel>,
}

impl View for SavedSourceData {
    type V = SavedSourceDataModel;

    open spec fn view(&self) -> SavedSourceDataModel {
        SavedSourceDataModel {
            folder: self.folder@,
            name: self.name@,
            originals: files_view(self.originals@),
        }
    }
}

impl Clone for SavedSourceData {
    fn clone(&self) -> (r: Self)
        ensures
            r@ == self@,
    {
        let mut originals: Vec<OriginalFile> = Vec::new();
        let mut i: usize = 0;
        while i < self.originals.len()
            invariant
                i <= self.originals@.len(),
                files_view(originals@) == files_view(self.originals@).take(i as int),
            decreases self.originals@.len() - i,
        {
            let ghost before = files_view(originals@);
            originals.push(self.originals[i].clone());
            i = i + 1;
            proof {
                assert(files_view(originals@) =~= before.push(self.originals@[i - 1]@));
                assert(files_view(self.originals@).take(i as int) =~= files_view(
                    self.originals@,
                ).take(i - 1).push(files_view(self.originals@)[i - 1]));
            }
        }
        proof {
            assert(files_view(self.originals@).take(self.originals@.len() as int) =~= files_view(
                self.originals@,
            ));
        }
        SavedSourceData {
            folder: self.folder.clone(),
            name: self.name.clone(),
            originals,
        }
    }
}

/// The persisted form of one source: a type identifier, the source's own
/// data, and the background entries that belong to it.
pub struct SavedBackgroundSource {
    pub ty: String,
    pub data: SavedSourceData,
    pub backgrounds: Vec<SavedDesktopBackground>,
}

/// Model of a persisted source.
pub ghost struct SavedSourceModel {
    pub ty: Seq<char>,
    pub data: SavedSourceDataModel,
    pub backgrounds: Seq<SavedBackgroundModel>,
}

impl View for SavedBackgroundSource {
    type V = SavedSourceModel;

    open spec fn view(&self) -> SavedSourceModel {
        SavedSourceModel {
            ty: self.ty@,
            data: self.data@,
            backgrounds: self.backgrounds@.map_values(|b: SavedDesktopBackground| b@),
        }
    }
}

impl Clone for SavedBackgroundSource {
    fn clone(&self) -> (r: Self)
        ensures
            r@ == self@,
    {
        let mut backgrounds: Vec<SavedDesktopBackground> = Vec::new();
        let mut i: usize = 0;
        while i < self.backgrounds.len()
            invariant
                i <= self.backgrounds@.len(),
                backgrounds@.map_values(|b: SavedDesktopBackground| b@) == self.backgrounds@
                    .map_values(|b: SavedDesktopBackground| b@).take(i as int),
            decreases self.backgrounds@.len() - i,
        {
            let ghost before = backgrounds@.map_values(|b: SavedDesktopBackground| b@);
            backgrounds.push(self.backgrounds[i].clone());
            i = i + 1;
            proof {
                assert(backgrounds@.map_values(|b: SavedDesktopBackground| b@) =~= before.push(
                    self.backgrounds@[i - 1]@,
                ));
                assert(self.backgrounds@.map_values(|b: SavedDesktopBackground| b@).take(i as int)
                    =~= self.backgrounds@.map_values(|b: SavedDesktopBackground| b@).take(
                    i - 1,
                ).push(self.backgrounds@.map_values(|b: SavedDesktopBackground| b@)[i - 1]));
            }
        }
        proof {
            assert(self.backgrounds@.map_values(|b: SavedDesktopBackground| b@).take(
                self.backgrounds@.len() as int,
            ) =~= self.backgrounds@.map_values(|b: SavedDesktopBackground| b@));
        }
        SavedBackgroundSource { ty: self.ty.clone(), data: self.data.clone(), backgrounds }
    }
}

/// The persisted form of a whole background set.
pub struct SavedBackgroundSet {
    pub image_folder: String,
    pub name: String,
    pub resolution: (u32, u32),
    pub sources: Vec<SavedBackgroundSource>,
}

/// Model of a persisted set.
pub ghost struct SavedSetModel {
    pub image_folder: Seq<char>,
    pub name: Seq<char>,
    pub resolution: (u32, u32),
    pub sources: Seq<SavedSourceModel>,
}

impl View for SavedBackgroundSet {
    type V = SavedSetModel;

    open spec fn view(&self) -> SavedSetModel {
        SavedSetModel {
            image_folder: self.image_folder@,
            name: self.name@,
            resolution: self.resolution,
            sources: self.sources@.map_values(|s: SavedBackgroundSource| s@),
        }
    }
}

/// Why one persisted source could not be brought back to life.
#[derive(Clone, Copy, Debug, PartialEq, Eq, Structural)]
pub enum SourceLoadError {
    /// The source's own data does not fit its declared type.
    Deserialize,
    /// No source type with this identifier is known.
    IdNotFound,
}

/// A per-source load warning: the source was dropped, with its entries,
/// rather than aborting the whole load.
pub struct SetLoadWarning {
    /// The persisted source that could not be loaded.
    pub source: SavedBackgroundSource,
    /// Why it could not be loaded.
    pub error: SourceLoadError,
}

/// Model of a load warning.
pub ghost struct SetLoadWarningModel {
    pub source: SavedSourceModel,
    pub error: SourceLoadError,
}

impl View for SetLoadWarning {
    type V = SetLoadWarningModel;

    open spec fn view(&self) -> SetLoadWarningModel {
        SetLoadWarningModel { source: self.source@, error: self.error }
    }
}

/// Data that no run of the library could have persisted: loading refuses the
/// whole document, as a parse failure would.
#[derive(Clone, Copy, Debug, PartialEq, Eq, Structural)]
pub enum LoadError {
    /// The persisted export resolution has a zero side.
    InvalidResolution,
    /// A background entry carries unassigned flag bits or an out-of-range
    /// crop edit.
    InvalidBackground,
}

/// Whether a persisted background entry is well-formed: only assigned flag
/// bits, and any crop edit within bounds.
pub open spec fn spec_saved_background_valid(b: SavedBackgroundModel) -> bool {
    &&& DesktopBackgroundFlags::spec_bits_valid(b.flags)
    &&& (b.edit_info matches Some(e) ==> spec_edit_wf(e))
}

/// What reassembling one persisted source yields: the live source, or the
/// reason it was dropped. An unknown type identifier and source data that
/// does not fit the folder schema fail cleanly, never fatally.
pub open spec fn spec_load_source(ty: Seq<char>, data: SavedSourceDataModel) -> Result<
    FolderSourceModel,
    SourceLoadError,
> {
    if ty != "folder"@ {
        Err(SourceLoadError::IdNotFound)
    } else if !unique_filenames(data.originals) {
        Err(SourceLoadError::Deserialize)
    } else {
        Ok(
            FolderSourceModel {
                folder: data.folder,
                name: data.name,
                originals: data.originals,
            },
        )
    }
}

/// Reassemble one persisted source, looking its type identifier up among the
/// known source kinds and deserializing its data against that kind's schema.
pub fn load_source_by_id(ty: &String, data: SavedSourceData) -> (r: Result<
    FolderSource,
    SourceLoadError,
>)
    ensures
        (match r {
            Ok(source) => spec_load_source(ty@, data@) == Ok::<
                FolderSourceModel,
                SourceLoadError,
            >(source@) && source@.wf(),
            Err(error) => spec_load_source(ty@, data@) == Err::<
                FolderSourceModel,
                SourceLoadError,
            >(error),
        }),
{
    if !is_folder_type(ty) {
        return Err(SourceLoadError::IdNotFound);
    }
    if !check_unique_filenames(&data.originals) {
        return Err(SourceLoadError::Deserialize);
    }
    let SavedSourceData { folder, name, originals } = data;
    Ok(FolderSource::from_parts(folder, name, originals))
}

/// The live record one persisted entry denotes, once its owning source lives
/// at index `source`: the key is re-resolved from its transport form, and
/// the record starts stale — what is known about the original has not been
/// checked since the load.
pub open spec fn spec_loaded_record(b: SavedBackgroundModel, source: int) -> BackgroundModel {
    BackgroundModel {
        name: b.name,
        location: b.location,
        comments: b.comments,
        source,
        original: spec_assemble_key(b.key_filename, b.key_hash),
        flags: DesktopBackgroundFlags::spec_from_bits(b.flags),
        original_meta: OriginalMeta::Stale { last_known_size: b.last_known_size },
        edit_info: b.edit_info,
    }
}

/// The records one persisted source contributes, in order.
pub open spec fn spec_loaded_records(bs: Seq<SavedBackgroundModel>, source: int) -> Seq<
    Option<BackgroundModel>,
> {
    bs.map_values(|b: SavedBackgroundModel| Some(spec_loaded_record(b, source)))
}

/// Loading, source by source: a source that reassembles is appended together
/// with its records (which point at its new index); one that does not
/// becomes a warning, its records dropped.
pub open spec fn spec_load_from(
    acc: BackgroundSetModel,
    sources: Seq<SavedSourceModel>,
) -> (BackgroundSetModel, Seq<SetLoadWarningModel>)
    decreases sources.len(),
{
    if sources.len() == 0 {
        (acc, Seq::<SetLoadWarningModel>::empty())
    } else {
        match spec_load_source(sources[0].ty, sources[0].data) {
            Err(error) => {
                let rest = spec_load_from(acc, sources.drop_first());
                (
                    rest.0,
                    seq![SetLoadWarningModel { source: sources[0], error }] + rest.1,
                )
            },
            Ok(srcm) => {
                let acc2 = BackgroundSetModel {
                    sources: acc.sources.push(Some(srcm)),
                    backgrounds: acc.backgrounds + spec_loaded_records(
                        sources[0].backgrounds,
                        acc.sources.len() as int,
                    ),
                    ..acc
                };
                spec_load_from(acc2, sources.drop_first())
            },
        }
    }
}

/// What loading a persisted set yields.
pub open spec fn spec_load(saved: SavedSetModel) -> (BackgroundSetModel, Seq<SetLoadWarningModel>) {
    spec_load_from(
        BackgroundSetModel {
            image_folder: Some(saved.image_folder),
            name: Some(saved.name),
            resolution: saved.resolution,
            backgrounds: Seq::<Option<BackgroundModel>>::empty(),
            sources: Seq::<Option<FolderSourceModel>>::empty(),
        },
        saved.sources,
    )
}

/// Whether the set's type identifier names the folder source kind.
fn is_folder_type(ty: &String) -> (r: bool)
    ensures
        r == (ty@ == "folder"@),
{
    let folder: String = "folder".to_owned();
    ty.eq(&folder)
}

/// Check one persisted background entry for validity.
fn check_saved_background(b: &SavedDesktopBackground) -> (r: bool)
    ensures
        r == spec_saved_background_valid(b@),
{
    let flags_ok = DesktopBackgroundFlags::from_bits(b.flags).is_some();
    let edit_ok = match &b.edit_info {
        Some(e) => check_edit_wf(e),
        None => true,
    };
    flags_ok && edit_ok
}

impl BackgroundSet {
    /// Bring a persisted set back to life. Each source is reassembled from
    /// its data and its entries' keys re-resolved through it; a source that
    /// fails yields a warning and its entries are dropped. Data that no run
    /// of the library could have written — a zero resolution, unassigned
    /// flag bits, an out-of-range crop edit — refuses the whole document.
    pub fn load(saved: SavedBackgroundSet) -> (r: Result<
        (BackgroundSet, Vec<SetLoadWarning>),
        LoadError,
    >)
        ensures
            (match r {
                Ok((set, warnings)) => {
                    &&& saved@.resolution.0 > 0 && saved@.resolution.1 > 0
                    &&& forall|k: int, j: int|
                        0 <= k < saved@.sources.len() && 0 <= j < saved@.sources[k].backgrounds.len()
                            ==> spec_saved_background_valid(
                            #[trigger] saved@.sources[k].backgrounds[j],
                        )
                    &&& set@ == spec_load(saved@).0
                    &&& warnings@.map_values(|w: SetLoadWarning| w@) == spec_load(saved@).1
                    &&& set@.wf()
                },
                Err(LoadError::InvalidResolution) => saved@.resolution.0 == 0
                    || saved@.resolution.1 == 0,
                Err(LoadError::InvalidBackground) => exists|k: int, j: int|
                    0 <= k < saved@.sources.len() && 0 <= j < saved@.sources[k].backgrounds.len()
                        && !spec_saved_background_valid(
                        #[trigger] saved@.sources[k].backgrounds[j],
                    ),
            }),
    {
        if saved.resolution.0 == 0 || saved.resolution.1 == 0 {
            return Err(LoadError::InvalidResolution);
        }
        let ghost sm = saved@;
        // refuse data the library could never have written
        let mut k: usize = 0;
        while k < saved.sources.len()
            invariant
                k <= saved.sources@.len(),
                sm == saved@,
                sm.sources.len() == saved.sources@.len(),
                forall|a: int, j: int|
                    0 <= a < k && 0 <= j < sm.sources[a].backgrounds.len()
                        ==> spec_saved_background_valid(#[trigger] sm.sources[a].backgrounds[j]),
            decreases saved.sources@.len() - k,
        {
            proof {
                assert(sm.sources[k as int] == saved.sources@[k as int]@);
            }
            let src = &saved.sources[k];
            let mut j: usize = 0;
            while j < src.backgrounds.len()
                invariant
                    j <= src.backgrounds@.len(),
                    sm == saved@,
                    src@ == sm.sources[k as int],
                    k < sm.sources.len(),
                    src@.backgrounds.len() == src.backgrounds@.len(),
                    forall|b: int|
                        0 <= b < j ==> spec_saved_background_valid(
                            (#[trigger] src@.backgrounds[b]),
                        ),
                decreases src.backgrounds@.len() - j,
            {
                proof {
                    assert(src@.backgrounds[j as int] == src.backgrounds@[j as int]@);
                }
                if !check_saved_background(&src.backgrounds[j]) {
                    proof {
                        assert(!spec_saved_background_valid(
                            saved@.sources[k as int].backgrounds[j as int],
                        ));
                        assert(exists|a: int, b: int|
                            0 <= a < saved@.sources.len() && 0 <= b < saved@.sources[
                                a
                            ].backgrounds.len() && !spec_saved_background_valid(
                                #[trigger] saved@.sources[a].backgrounds[b],
                            ));
                    }
                    return Err(LoadError::InvalidBackground);
                }
                j = j + 1;
            }
            k = k + 1;
        }
        // reassemble, source by source
        let SavedBackgroundSet { image_folder, name, resolution, sources } = saved;
        let mut set = BackgroundSet::new(resolution);
        set.set_image_folder(image_folder);
        set.set_name(name);
        let mut warnings: Vec<SetLoadWarning> = Vec::new();
        let ghost whole = spec_load(sm);
        proof {
            assert(sm.sources.skip(0) =~= sm.sources);
            assert(warnings@.map_values(|w: SetLoadWarning| w@) =~= Seq::<
                SetLoadWarningModel,
            >::empty());
            assert(whole == spec_load_from(set@, sm.sources.skip(0)));
        }
        let mut i: usize = 0;
        while i < sources.len()
            invariant
                i <= sources@.len(),
                sm.sources.len() == sources@.len(),
                sm.sources == sources@.map_values(|s: SavedBackgroundSource| s@),
                forall|a: int, j: int|
                    0 <= a < sm.sources.len() && 0 <= j < sm.sources[a].backgrounds.len()
                        ==> spec_saved_background_valid(#[trigger] sm.sources[a].backgrounds[j]),
                set@.wf(),
                whole == spec_load(sm),
                whole.0 == spec_load_from(set@, sm.sources.skip(i as int)).0,
                whole.1 == warnings@.map_values(|w: SetLoadWarning| w@) + spec_load_from(
                    set@,
                    sm.sources.skip(i as int),
                ).1,
            decreases sources@.len() - i,
        {
            let ghost suffix = sm.sources.skip(i as int);
            proof {
                assert(suffix[0] == sm.sources[i as int]);
                assert(sm.sources[i as int] == sources@[i as int]@);
                assert(suffix.drop_first() =~= sm.sources.skip(i as int + 1));
            }
            let ghost warnings_before = warnings@.map_values(|w: SetLoadWarning| w@);
            let src = &sources[i];
            match load_source_by_id(&src.ty, src.data.clone()) {
                Err(error) => {
                    warnings.push(SetLoadWarning { source: src.clone(), error });
                    proof {
                        let w = SetLoadWarningModel { source: suffix[0], error };
                        assert(warnings@.map_values(|w: SetLoadWarning| w@)
                            =~= warnings_before.push(w));
                        let rest = spec_load_from(set@, sm.sources.skip(i as int + 1));
                        assert(warnings_before + (seq![w] + rest.1) =~= warnings_before.push(w)
                            + rest.1);
                    }
                },
                Ok(source) => {
                    let idx = set.add_source(source);
                let ghost set_before_records = set@;
                let mut j: usize = 0;
                while j < sources[i].backgrounds.len()
                    invariant
                        i < sources@.len(),
                        sm.sources == sources@.map_values(|s: SavedBackgroundSource| s@),
                        j <= sources@[i as int].backgrounds@.len(),
                        sources@[i as int]@.backgrounds.len() == sources@[
                            i as int
                        ].backgrounds@.len(),
                        sources@[i as int]@ == sm.sources[i as int],
                        forall|b: int|
                            0 <= b < sm.sources[i as int].backgrounds.len()
                                ==> spec_saved_background_valid(
                                (#[trigger] sm.sources[i as int].backgrounds[b]),
                            ),
                        idx < set@.sources.len(),
                        set@.sources[idx as int] is Some,
                        set@.wf(),
                        set@ == (BackgroundSetModel {
                            backgrounds: set_before_records.backgrounds + spec_loaded_records(
                                sm.sources[i as int].backgrounds.take(j as int),
                                idx as int,
                            ),
                            ..set_before_records
                        }),
                    decreases sources@[i as int].backgrounds@.len() - j,
                {
                    proof {
                        assert(sm.sources[i as int].backgrounds[j as int] == sources@[
                            i as int
                        ].backgrounds@[j as int]@);
                    }
                    let b = sources[i].backgrounds[j].clone();
                    let key = self_assemble(&set, idx, b.key_data);
                    let flags = match DesktopBackgroundFlags::from_bits(b.flags) {
                        Some(flags) => flags,
                        None => {
                            proof {
                                assert(false);
                            }
                            DesktopBackgroundFlags::new_unedited()
                        },
                    };
                    let record = DesktopBackground {
                        name: b.name,
                        location: b.location,
                        comments: b.comments,
                        source: idx,
                        original: key,
                        flags,
                        original_meta: OriginalMeta::Stale {
                            last_known_size: b.original_meta.last_known_size,
                        },
                        edit_info: b.edit_info,
                    };
                    set.add_background(record);
                    j = j + 1;
                    proof {
                        assert(spec_loaded_records(
                            sm.sources[i as int].backgrounds.take(j as int),
                            idx as int,
                        ) =~= spec_loaded_records(
                            sm.sources[i as int].backgrounds.take(j - 1),
                            idx as int,
                        ).push(
                            Some(
                                spec_loaded_record(
                                    sm.sources[i as int].backgrounds[j - 1],
                                    idx as int,
                                ),
                            ),
                        ));
                        assert(set@.backgrounds =~= set_before_records.backgrounds
                            + spec_loaded_records(
                            sm.sources[i as int].backgrounds.take(j as int),
                            idx as int,
                        ));
                    }
                }
                    proof {
                        assert(sm.sources[i as int].backgrounds.take(
                            sm.sources[i as int].backgrounds.len() as int,
                        ) =~= sm.sources[i as int].backgrounds);
                        assert(spec_load_source(suffix[0].ty, suffix[0].data) == Ok::<
                            FolderSourceModel,
                            SourceLoadError,
                        >(
                            FolderSourceModel {
                                folder: suffix[0].data.folder,
                                name: suffix[0].data.name,
                                originals: suffix[0].data.originals,
                            },
                        ));
                    }
                },
            }
            i = i + 1;
        }
        proof {
            assert(sm.sources.skip(sm.sources.len() as int) =~= Seq::<SavedSourceModel>::empty());
            assert(whole.1 =~= warnings@.map_values(|w: SetLoadWarning| w@));
        }
        Ok((set, warnings))
    }
}

/// The persisted form of one live record.
pub open spec fn spec_saved_record(b: BackgroundModel) -> SavedBackgroundModel {
    SavedBackgroundModel {
        name: b.name,
        location: b.location,
        comments: b.comments,
        key_filename: key_model_data(b.original).0,
        key_hash: key_model_data(b.original).1,
        flags: b.flags.spec_bits(),
        last_known_size: b.original_meta.spec_last_known_size(),
        edit_info: b.edit_info,
    }
}

/// The persisted entries of the records that belong to the source at `idx`,
/// in record order.
pub open spec fn spec_saved_backgrounds(bs: Seq<Option<BackgroundModel>>, idx: int) -> Seq<
    SavedBackgroundModel,
>
    decreases bs.len(),
{
    if bs.len() == 0 {
        Seq::<SavedBackgroundModel>::empty()
    } else {
        let rest = spec_saved_backgrounds(bs.drop_first(), idx);
        match bs[0] {
            Some(b) => if b.source == idx {
                seq![spec_saved_record(b)] + rest
            } else {
                rest
            },
            None => rest,
        }
    }
}

/// The persisted form of the live source at `idx`, with its records.
pub open spec fn spec_saved_source(s: BackgroundSetModel, idx: int) -> SavedSourceModel {
    let src = s.sources[idx].unwrap();
    SavedSourceModel {
        ty: "folder"@,
        data: SavedSourceDataModel {
            folder: src.folder,
            name: src.name,
            originals: src.originals,
        },
        backgrounds: spec_saved_backgrounds(s.backgrounds, idx),
    }
}

/// The persisted forms of the live sources from slot `i` on, in slot order.
pub open spec fn spec_saved_sources(s: BackgroundSetModel, i: int) -> Seq<SavedSourceModel>
    decreases s.sources.len() - i,
{
    if i < 0 || i >= s.sources.len() {
        Seq::<SavedSourceModel>::empty()
    } else {
        let rest = spec_saved_sources(s, i + 1);
        match s.sources[i] {
            Some(_) => seq![spec_saved_source(s, i)] + rest,
            None => rest,
        }
    }
}

/// The persisted form of a whole set.
pub open spec fn spec_save(s: BackgroundSetModel) -> SavedSetModel {
    SavedSetModel {
        image_folder: s.image_folder.unwrap(),
        name: s.name.unwrap(),
        resolution: s.resolution,
        sources: spec_saved_sources(s, 0),
    }
}

impl BackgroundSet {
    /// Marshal this set into its persisted form: each live source, in slot
    /// order, with the entries of the records that belong to it. A set can
    /// only be saved once it has an image folder and a name.
    pub fn save(&self) -> (r: SavedBackgroundSet)
        requires
            self@.image_folder is Some,
            self@.name is Some,
        ensures
            r@ == spec_save(self@),
    {
        let image_folder = match self.image_folder() {
            Some(s) => s.to_owned(),
            None => {
                proof {
                    assert(false);
                }
                String::new()
            },
        };
        let name = match self.name() {
            Some(s) => s.to_owned(),
            None => {
                proof {
                    assert(false);
                }
                String::new()
            },
        };
        let mut sources: Vec<SavedBackgroundSource> = Vec::new();
        let mut idx: usize = 0;
        proof {
            assert(sources@.map_values(|s: SavedBackgroundSource| s@) =~= Seq::<
                SavedSourceModel,
            >::empty());
        }
        while idx < self.source_count()
            invariant
                idx <= self@.sources.len(),
                spec_saved_sources(self@, 0) == sources@.map_values(
                    |s: SavedBackgroundSource| s@,
                ) + spec_saved_sources(self@, idx as int),
            decreases self@.sources.len() - idx,
        {
            let ghost before = sources@.map_values(|s: SavedBackgroundSource| s@);
            let live = match self.source(idx) {
                Some(src) => {
                    let data = SavedSourceData {
                        folder: src.folder().to_owned(),
                        name: src.name().to_owned(),
                        originals: clone_files(src.index()),
                    };
                    let backgrounds = self.saved_backgrounds_of(idx);
                    sources.push(
                        SavedBackgroundSource { ty: "folder".to_owned(), data, backgrounds },
                    );
                    true
                },
                None => false,
            };
            idx = idx + 1;
            proof {
                let rest = spec_saved_sources(self@, idx as int);
                if live {
                    let sv = spec_saved_source(self@, idx - 1);
                    assert(sources@.map_values(|s: SavedBackgroundSource| s@) =~= before.push(
                        sv,
                    ));
                    assert(before + (seq![sv] + rest) =~= before.push(sv) + rest);
                } else {
                    assert(sources@.map_values(|s: SavedBackgroundSource| s@) =~= before);
                }
            }
        }
        proof {
            assert(spec_saved_sources(self@, self@.sources.len() as int) =~= Seq::<
                SavedSourceModel,
            >::empty());
            assert(spec_saved_sources(self@, 0) =~= sources@.map_values(
                |s: SavedBackgroundSource| s@,
            ));
        }
        SavedBackgroundSet { image_folder, name, resolution: self.resolution(), sources }
    }

    /// The persisted entries of the records that belong to one source.
    fn saved_backgrounds_of(&self, idx: usize) -> (r: Vec<SavedDesktopBackground>)
        ensures
            r@.map_values(|b: SavedDesktopBackground| b@) == spec_saved_backgrounds(
                self@.backgrounds,
                idx as int,
            ),
    {
        let mut out: Vec<SavedDesktopBackground> = Vec::new();
        let mut j: usize = 0;
        proof {
            assert(self@.backgrounds.skip(0) =~= self@.backgrounds);
            assert(out@.map_values(|b: SavedDesktopBackground| b@) =~= Seq::<
                SavedBackgroundModel,
            >::empty());
        }
        while j < self.background_count()
            invariant
                j <= self@.backgrounds.len(),
                spec_saved_backgrounds(self@.backgrounds, idx as int) == out@.map_values(
                    |b: SavedDesktopBackground| b@,
                ) + spec_saved_backgrounds(self@.backgrounds.skip(j as int), idx as int),
            decreases self@.backgrounds.len() - j,
        {
            let ghost suffix = self@.backgrounds.skip(j as int);
            proof {
                assert(suffix[0] == self@.backgrounds[j as int]);
                assert(suffix.drop_first() =~= self@.backgrounds.skip(j as int + 1));
            }
            let ghost before = out@.map_values(|b: SavedDesktopBackground| b@);
            match self.background(j) {
                Some(b) => {
                    if b.source == idx {
                        out.push(
                            SavedDesktopBackground {
                                name: b.name.clone(),
                                location: b.location.clone(),
                                comments: b.comments.clone(),
                                key_data: b.original.to_key_data(),
                                flags: b.flags.to_bits(),
                                original_meta: SavedOriginalMeta {
                                    last_known_size: b.original_meta.last_known_size(),
                                },
                                edit_info: b.edit_info,
                            },
                        );
                    }
                },
                None => {},
            }
            j = j + 1;
            proof {
                let rest = spec_saved_backgrounds(
                    self@.backgrounds.skip(j as int),
                    idx as int,
                );
                match suffix[0] {
                    Some(b) => {
                        if b.source == idx as int {
                            let sv = spec_saved_record(b);
                            assert(out@.map_values(|b: SavedDesktopBackground| b@) =~= before.push(
                                sv,
                            ));
                            assert(before + (seq![sv] + rest) =~= before.push(sv) + rest);
                        } else {
                            assert(out@.map_values(|b: SavedDesktopBackground| b@) =~= before);
                        }
                    },
                    None => {
                        assert(out@.map_values(|b: SavedDesktopBackground| b@) =~= before);
                    },
                }
            }
        }
        proof {
            assert(self@.backgrounds.skip(self@.backgrounds.len() as int) =~= Seq::<
                Option<BackgroundModel>,
            >::empty());
            assert(spec_saved_backgrounds(self@.backgrounds, idx as int) =~= out@.map_values(
                |b: SavedDesktopBackground| b@,
            ));
        }
        out
    }
}

/// Re-resolve one key's transport data through the source at `idx`.
fn self_assemble(set: &BackgroundSet, idx: usize, data: KeyData) -> (r: OriginalKey)
    requires
        idx < set@.sources.len(),
        set@.sources[idx as int] is Some,
    ensures
        r@ == spec_assemble_key(data.filename@, data.hash@),
{
    match set.source(idx) {
        Some(src) => src.assemble_key(data),
        None => {
            proof {
                assert(false);
            }
            OriginalKey::Opaque(data)
        },
    }
}

} // verus!
