//! The background set: an indexable, stable collection of background records
//! and of the sources they come from.
//!
//! Records and sources keep their indices for their whole life: removal
//! clears a slot and never shifts or reuses the others, so in-flight
//! references (a selected background, a record's `source` index) stay valid
//! across unrelated removals.

use vstd::prelude::*;
use vstd::std_specs::vec::vec_index_mut;

use crate::background::{BackgroundModel, DesktopBackground, DesktopBackgroundFlags, OriginalMeta};
use crate::keys::{CompareKey, KeyModel, KeyRelation, OriginalKey};
use crate::sources::{
    FolderSnapshot, FolderSource, FolderSourceModel, OriginalChange, OriginalFile,
    OriginalFileModel, OriginalResult, changes_view, spec_reload, spec_source_original,
};

verus! {

/// Model of a background set.
pub ghost struct BackgroundSetModel {
    pub image_folder: Option<Seq<char>>,
    pub name: Option<Seq<char>>,
    pub resolution: (u32, u32),
    pub backgrounds: Seq<Option<BackgroundModel>>,
    pub sources: Seq<Option<FolderSourceModel>>,
}

impl BackgroundSetModel {
    /// Every live record points at a live source and keeps its edit within
    /// bounds; every live source keeps its index free of duplicate
    /// filenames; and the export resolution is a real size.
    pub open spec fn wf(self) -> bool {
        &&& forall|i: int|
            0 <= i < self.backgrounds.len() ==> ((#[trigger] self.backgrounds[i]) matches Some(b)
                ==> {
                &&& 0 <= b.source < self.sources.len()
                &&& self.sources[b.source] is Some
                &&& b.wf()
            })
        &&& forall|i: int|
            0 <= i < self.sources.len() ==> ((#[trigger] self.sources[i]) matches Some(s)
                ==> s.wf())
        &&& self.resolution.0 > 0
        &&& self.resolution.1 > 0
    }
}

/// A library of background records and the sources that provide their
/// originals, plus the export folder, a display name, and the target export
/// resolution.
pub struct BackgroundSet {
    image_folder: Option<String>,
    name: Option<String>,
    resolution: (u32, u32),
    backgrounds: Vec<Option<DesktopBackground>>,
    sources: Vec<Option<FolderSource>>,
}

impl View for BackgroundSet {
    type V = BackgroundSetModel;

    closed spec fn view(&self) -> BackgroundSetModel {
        BackgroundSetModel {
            image_folder: match &self.image_folder {
                Some(s) => Some(s@),
                None => None,
            },
            name: match &self.name {
                Some(s) => Some(s@),
                None => None,
            },
            resolution: self.resolution,
            backgrounds: self.backgrounds@.map_values(
                |b: Option<DesktopBackground>|
                    match b {
                        Some(b) => Some(b@),
                        None => None,
                    },
            ),
            sources: self.sources@.map_values(
                |s: Option<FolderSource>|
                    match s {
                        Some(s) => Some(s@),
                        None => None,
                    },
            ),
        }
    }
}

impl BackgroundSet {
    /// Create an empty set with the given export resolution.
    pub fn new(resolution: (u32, u32)) -> (r: BackgroundSet)
        requires
            resolution.0 > 0,
            resolution.1 > 0,
        ensures
            r@.image_folder is None,
            r@.name is None,
            r@.resolution == resolution,
            r@.backgrounds == Seq::<Option<BackgroundModel>>::empty(),
            r@.sources == Seq::<Option<FolderSourceModel>>::empty(),
            r@.wf(),
    {
        let r = BackgroundSet {
            image_folder: None,
            name: None,
            resolution,
            backgrounds: Vec::new(),
            sources: Vec::new(),
        };
        proof {
            assert(r@.backgrounds =~= Seq::<Option<BackgroundModel>>::empty());
            assert(r@.sources =~= Seq::<Option<FolderSourceModel>>::empty());
        }
        r
    }

    /// The folder the set exports into, if one was chosen.
    pub fn image_folder(&self) -> (r: Option<&str>)
        ensures
            (match r {
                Some(s) => self@.image_folder == Some(s@),
                None => self@.image_folder is None,
            }),
    {
        match &self.image_folder {
            Some(s) => Some(s.as_str()),
            None => None,
        }
    }

    /// Choose the folder the set exports into.
    pub fn set_image_folder(&mut self, path: String)
        ensures
            final(self)@ == (BackgroundSetModel { image_folder: Some(path@), ..old(self)@ }),
    {
        self.image_folder = Some(path);
    }

    /// The set's display name, if one was given.
    pub fn name(&self) -> (r: Option<&str>)
        ensures
            (match r {
                Some(s) => self@.name == Some(s@),
                None => self@.name is None,
            }),
    {
        match &self.name {
            Some(s) => Some(s.as_str()),
            None => None,
        }
    }

    /// Give the set a display name.
    pub fn set_name(&mut self, name: String)
        ensures
            final(self)@ == (BackgroundSetModel { name: Some(name@), ..old(self)@ }),
    {
        self.name = Some(name);
    }

    /// The target export resolution.
    pub fn resolution(&self) -> (r: (u32, u32))
        ensures
            r == self@.resolution,
    {
        self.resolution
    }

    /// How many record slots exist (live or cleared).
    pub fn background_count(&self) -> (r: usize)
        ensures
            r == self@.backgrounds.len(),
    {
        self.backgrounds.len()
    }

    /// How many source slots exist (live or cleared).
    pub fn source_count(&self) -> (r: usize)
        ensures
            r == self@.sources.len(),
    {
        self.sources.len()
    }

    /// The record in a slot, if the slot is live.
    pub fn background(&self, id: usize) -> (r: Option<&DesktopBackground>)
        requires
            id < self@.backgrounds.len(),
        ensures
            (match r {
                Some(b) => self@.backgrounds[id as int] == Some(b@),
                None => self@.backgrounds[id as int] is None,
            }),
    {
        proof {
            assert(self@.backgrounds[id as int] == (match self.backgrounds@[id as int] {
                Some(b) => Some(b@),
                None => None::<BackgroundModel>,
            }));
        }
        match &self.backgrounds[id] {
            Some(b) => Some(b),
            None => None,
        }
    }

    /// The source in a slot, if the slot is live.
    pub fn source(&self, idx: usize) -> (r: Option<&FolderSource>)
        requires
            idx < self@.sources.len(),
        ensures
            (match r {
                Some(s) => self@.sources[idx as int] == Some(s@),
                None => self@.sources[idx as int] is None,
            }),
    {
        proof {
            assert(self@.sources[idx as int] == (match self.sources@[idx as int] {
                Some(s) => Some(s@),
                None => None::<FolderSourceModel>,
            }));
        }
        match &self.sources[idx] {
            Some(s) => Some(s),
            None => None,
        }
    }

    /// Add a source to the set and return its index.
    pub fn add_source(&mut self, source: FolderSource) -> (idx: usize)
        requires
            old(self)@.wf(),
            source@.wf(),
        ensures
            idx == old(self)@.sources.len(),
            final(self)@ == (BackgroundSetModel {
                sources: old(self)@.sources.push(Some(source@)),
                ..old(self)@
            }),
            final(self)@.wf(),
    {
        let ghost sm = source@;
        let idx = self.sources.len();
        self.sources.push(Some(source));
        proof {
            assert(self@.sources =~= old(self)@.sources.push(Some(sm)));
        }
        idx
    }

    /// Remove a source. This cascades: exactly the records whose `source`
    /// index equals the removed index are removed with it, and no others.
    pub fn remove_source(&mut self, source: usize)
        requires
            old(self)@.wf(),
            source < old(self)@.sources.len(),
        ensures
            final(self)@.sources == old(self)@.sources.update(source as int, None),
            final(self)@.backgrounds.len() == old(self)@.backgrounds.len(),
            forall|i: int|
                0 <= i < old(self)@.backgrounds.len() ==> final(self)@.backgrounds[i] == (
                match old(self)@.backgrounds[i] {
                    Some(b) => if b.source == source as int {
                        None
                    } else {
                        Some(b)
                    },
                    None => None::<BackgroundModel>,
                }),
            final(self)@.image_folder == old(self)@.image_folder,
            final(self)@.name == old(self)@.name,
            final(self)@.resolution == old(self)@.resolution,
            final(self)@.wf(),
    {
        let ghost m0 = self@;
        let mut i: usize = 0;
        while i < self.backgrounds.len()
            invariant
                i <= self.backgrounds@.len(),
                self@.backgrounds.len() == m0.backgrounds.len(),
                self@.backgrounds.len() == self.backgrounds@.len(),
                self@.sources == m0.sources,
                self@.image_folder == m0.image_folder,
                self@.name == m0.name,
                self@.resolution == m0.resolution,
                forall|j: int|
                    0 <= j < i ==> self@.backgrounds[j] == (match m0.backgrounds[j] {
                        Some(b) => if b.source == source as int {
                            None
                        } else {
                            Some(b)
                        },
                        None => None::<BackgroundModel>,
                    }),
                forall|j: int|
                    i <= j < m0.backgrounds.len() ==> self@.backgrounds[j] == m0.backgrounds[j],
            decreases self.backgrounds@.len() - i,
        {
            proof {
                assert(self@.backgrounds[i as int] == (match self.backgrounds@[i as int] {
                    Some(b) => Some(b@),
                    None => None::<BackgroundModel>,
                }));
            }
            let ghost mv = self@.backgrounds;
            let ghost rawv = self.backgrounds@;
            let remove = match &self.backgrounds[i] {
                Some(b) => b.source == source,
                None => false,
            };
            if remove {
                let slot = vec_index_mut(&mut self.backgrounds, i);
                *slot = None;
                proof {
                    assert(self.backgrounds@ == rawv.update(i as int, None));
                    assert forall|j: int| 0 <= j < mv.len() && j != i as int implies self@
                        .backgrounds[j] == mv[j] by {
                        assert(self.backgrounds@[j] == rawv[j]);
                    }
                    assert(self@.backgrounds[i as int] is None);
                }
            }
            proof {
                assert(self@.backgrounds[i as int] == (match m0.backgrounds[i as int] {
                    Some(b) => if b.source == source as int {
                        None::<BackgroundModel>
                    } else {
                        Some(b)
                    },
                    None => None::<BackgroundModel>,
                }));
                assert forall|j: int| 0 <= j < i as int implies self@.backgrounds[j] == (
                match m0.backgrounds[j] {
                    Some(b) => if b.source == source as int {
                        None::<BackgroundModel>
                    } else {
                        Some(b)
                    },
                    None => None::<BackgroundModel>,
                }) by {
                    assert(self@.backgrounds[j] == mv[j]);
                }
            }
            i = i + 1;
        }
        let slot = vec_index_mut(&mut self.sources, source);
        *slot = None;
        proof {
            assert(final(self)@.sources =~= m0.sources.update(source as int, None));
        }
    }

    /// Rescan one source against an observed snapshot of its folder and
    /// return the classified changes. See `FolderSource::reload`.
    pub fn reload_source(&mut self, idx: usize, snapshot: &FolderSnapshot) -> (changes: Vec<
        OriginalChange,
    >)
        requires
            old(self)@.wf(),
            idx < old(self)@.sources.len(),
            old(self)@.sources[idx as int] is Some,
            snapshot.wf(),
        ensures
            final(self)@ == (BackgroundSetModel {
                sources: old(self)@.sources.update(
                    idx as int,
                    Some(
                        spec_reload(old(self)@.sources[idx as int].unwrap(), snapshot@).0,
                    ),
                ),
                ..old(self)@
            }),
            changes_view(changes@) == spec_reload(
                old(self)@.sources[idx as int].unwrap(),
                snapshot@,
            ).1,
            final(self)@.wf(),
    {
        let slot = vec_index_mut(&mut self.sources, idx);
        let changes = match slot {
            Some(src) => src.reload(snapshot),
            None => {
                proof {
                    assert(false);
                }
                Vec::new()
            },
        };
        proof {
            assert(final(self)@.sources =~= old(self)@.sources.update(
                idx as int,
                Some(spec_reload(old(self)@.sources[idx as int].unwrap(), snapshot@).0),
            ));
        }
        changes
    }
    /// Replace one record's flags. A record with a readable original cannot
    /// be marked as missing it.
    pub fn set_background_flags(&mut self, id: usize, flags: DesktopBackgroundFlags)
        requires
            old(self)@.wf(),
            id < old(self)@.backgrounds.len(),
            old(self)@.backgrounds[id as int] is Some,
            flags.original_missing ==> !(old(self)@.backgrounds[
                id as int
            ].unwrap().original_meta is Known),
        ensures
            final(self)@ == (BackgroundSetModel {
                backgrounds: old(self)@.backgrounds.update(
                    id as int,
                    Some(
                        BackgroundModel { flags, ..old(self)@.backgrounds[id as int].unwrap() },
                    ),
                ),
                ..old(self)@
            }),
            final(self)@.wf(),
    {
        let ghost rawv = self.backgrounds@;
        proof {
            assert(self@.backgrounds[id as int] == (match rawv[id as int] {
                Some(b) => Some(b@),
                None => None::<BackgroundModel>,
            }));
        }
        let slot = vec_index_mut(&mut self.backgrounds, id);
        match slot {
            Some(b) => {
                b.flags = flags;
            },
            None => {
                proof {
                    assert(false);
                }
            },
        }
        proof {
            assert forall|j: int| 0 <= j < rawv.len() && j != id as int implies self@.backgrounds[j]
                == (match rawv[j] {
                Some(b) => Some(b@),
                None => None::<BackgroundModel>,
            }) by {
                assert(self.backgrounds@[j] == rawv[j]);
            }
            assert(self@.backgrounds =~= old(self)@.backgrounds.update(
                id as int,
                Some(BackgroundModel { flags, ..old(self)@.backgrounds[id as int].unwrap() }),
            ));
        }
    }

    /// Store a manual crop edit on one record, clipped against its
    /// original's bounds; see `DesktopBackground::set_crop_region`.
    pub fn set_background_crop_region(
        &mut self,
        id: usize,
        crop_size: (u32, u32),
        center: (i64, i64),
        scale: u32,
    ) -> (r: Result<(), crate::background::UnavailableError>)
        requires
            old(self)@.wf(),
            id < old(self)@.backgrounds.len(),
            old(self)@.backgrounds[id as int] is Some,
            crop_size.0 > 0,
            crop_size.1 > 0,
        ensures
            final(self)@.backgrounds.len() == old(self)@.backgrounds.len(),
            forall|j: int|
                0 <= j < old(self)@.backgrounds.len() && j != id as int ==> final(self)@
                    .backgrounds[j] == old(self)@.backgrounds[j],
            final(self)@.sources == old(self)@.sources,
            final(self)@.image_folder == old(self)@.image_folder,
            final(self)@.name == old(self)@.name,
            final(self)@.resolution == old(self)@.resolution,
            (match r {
                Ok(_) => old(self)@.backgrounds[id as int].unwrap().original_meta matches
                    OriginalMeta::Known { size } && {
                    let clipped = (crate::geometry::EditableCropRegion {
                        crop_size,
                        tex_size: size,
                        center,
                        scale,
                    }).spec_clip();
                    final(self)@.backgrounds[id as int] == Some(
                        BackgroundModel {
                            edit_info: Some(
                                crate::background::EditInfo {
                                    center: clipped.center,
                                    scale: clipped.scale,
                                },
                            ),
                            flags: DesktopBackgroundFlags {
                                unedited: false,
                                ..old(self)@.backgrounds[id as int].unwrap().flags
                            },
                            ..old(self)@.backgrounds[id as int].unwrap()
                        },
                    )
                },
                Err(_) => !(old(self)@.backgrounds[id as int].unwrap().original_meta is Known)
                    && final(self)@.backgrounds[id as int] == old(self)@.backgrounds[id as int],
            }),
            final(self)@.wf(),
    {
        let ghost rawv = self.backgrounds@;
        proof {
            assert(self@.backgrounds[id as int] == (match rawv[id as int] {
                Some(b) => Some(b@),
                None => None::<BackgroundModel>,
            }));
        }
        let slot = vec_index_mut(&mut self.backgrounds, id);
        let r = match slot {
            Some(b) => b.set_crop_region(crop_size, center, scale),
            None => {
                proof {
                    assert(false);
                }
                Err(crate::background::UnavailableError)
            },
        };
        proof {
            assert forall|j: int| 0 <= j < rawv.len() && j != id as int implies self@.backgrounds[j]
                == (match rawv[j] {
                Some(b) => Some(b@),
                None => None::<BackgroundModel>,
            }) by {
                assert(self.backgrounds@[j] == rawv[j]);
            }
            let m1 = self@;
            assert(m1.wf()) by {
                assert forall|j: int|
                    0 <= j < m1.backgrounds.len() implies ((#[trigger] m1.backgrounds[j]) matches
                    Some(b) ==> {
                    &&& 0 <= b.source < m1.sources.len()
                    &&& m1.sources[b.source] is Some
                    &&& b.wf()
                }) by {
                    if j != id as int {
                        assert(m1.backgrounds[j] == old(self)@.backgrounds[j]);
                    }
                }
            }
        }
        r
    }

    /// Mark one record's original as unreadable right now.
    pub fn mark_background_unavailable(&mut self, id: usize)
        requires
            old(self)@.wf(),
            id < old(self)@.backgrounds.len(),
            old(self)@.backgrounds[id as int] is Some,
        ensures
            final(self)@ == (BackgroundSetModel {
                backgrounds: old(self)@.backgrounds.update(
                    id as int,
                    Some(
                        BackgroundModel {
                            original_meta: OriginalMeta::Unavailable {
                                last_known_size: old(self)@.backgrounds[
                                    id as int
                                ].unwrap().original_meta.spec_last_known_size(),
                            },
                            ..old(self)@.backgrounds[id as int].unwrap()
                        },
                    ),
                ),
                ..old(self)@
            }),
            final(self)@.wf(),
    {
        let ghost rawv = self.backgrounds@;
        proof {
            assert(self@.backgrounds[id as int] == (match rawv[id as int] {
                Some(b) => Some(b@),
                None => None::<BackgroundModel>,
            }));
        }
        let slot = vec_index_mut(&mut self.backgrounds, id);
        match slot {
            Some(b) => {
                b.mark_unavailable();
            },
            None => {
                proof {
                    assert(false);
                }
            },
        }
        proof {
            assert forall|j: int| 0 <= j < rawv.len() && j != id as int implies self@.backgrounds[j]
                == (match rawv[j] {
                Some(b) => Some(b@),
                None => None::<BackgroundModel>,
            }) by {
                assert(self.backgrounds@[j] == rawv[j]);
            }
            assert(self@.backgrounds =~= old(self)@.backgrounds.update(
                id as int,
                Some(
                    BackgroundModel {
                        original_meta: OriginalMeta::Unavailable {
                            last_known_size: old(self)@.backgrounds[
                                id as int
                            ].unwrap().original_meta.spec_last_known_size(),
                        },
                        ..old(self)@.backgrounds[id as int].unwrap()
                    },
                ),
            ));
        }
    }

    /// Look up an original in one of the set's sources.
    pub fn source_original(&self, idx: usize, key: &OriginalKey) -> (r: OriginalResult<
        OriginalFile,
    >)
        requires
            idx < self@.sources.len(),
            self@.sources[idx as int] is Some,
        ensures
            (match r {
                OriginalResult::Original(o) => spec_source_original(
                    self@.sources[idx as int].unwrap(),
                    key@,
                ) == OriginalResult::Original(o@),
                OriginalResult::ContentMismatch(o) => spec_source_original(
                    self@.sources[idx as int].unwrap(),
                    key@,
                ) == OriginalResult::ContentMismatch(o@),
                OriginalResult::WrongSource => spec_source_original(
                    self@.sources[idx as int].unwrap(),
                    key@,
                ) == OriginalResult::<OriginalFileModel>::WrongSource,
                OriginalResult::NotFound => spec_source_original(
                    self@.sources[idx as int].unwrap(),
                    key@,
                ) == OriginalResult::<OriginalFileModel>::NotFound,
            }),
    {
        proof {
            assert(self@.sources[idx as int] == (match self.sources@[idx as int] {
                Some(s) => Some(s@),
                None => None::<FolderSourceModel>,
            }));
        }
        match &self.sources[idx] {
            Some(src) => src.original(key),
            None => {
                proof {
                    assert(false);
                }
                OriginalResult::NotFound
            },
        }
    }

    /// Add a record to the set and return its index.
    pub fn add_background(&mut self, background: DesktopBackground) -> (id: usize)
        requires
            old(self)@.wf(),
            background@.wf(),
            0 <= background@.source < old(self)@.sources.len(),
            old(self)@.sources[background@.source] is Some,
        ensures
            id == old(self)@.backgrounds.len(),
            final(self)@ == (BackgroundSetModel {
                backgrounds: old(self)@.backgrounds.push(Some(background@)),
                ..old(self)@
            }),
            final(self)@.wf(),
    {
        let ghost bm = background@;
        let id = self.backgrounds.len();
        self.backgrounds.push(Some(background));
        proof {
            assert(self@.backgrounds =~= old(self)@.backgrounds.push(Some(bm)));
        }
        id
    }

    /// Update every record whose key relates to `key` as anything but
    /// `Distinct`: re-point it at `key` and refresh it from the original.
    /// `read` is the outcome of reading the original's image once.
    pub fn update_matching_records(
        &mut self,
        key: &OriginalKey,
        original: &OriginalFile,
        read: Option<(u32, u32)>,
    )
        requires
            old(self)@.wf(),
        ensures
            final(self)@ == (BackgroundSetModel {
                backgrounds: old(self)@.backgrounds.map_values(
                    |b: Option<BackgroundModel>| spec_update_matching(b, key@, original@, read),
                ),
                ..old(self)@
            }),
            final(self)@.wf(),
    {
        let ghost m0 = self@;
        let ghost goal = m0.backgrounds.map_values(
            |b: Option<BackgroundModel>| spec_update_matching(b, key@, original@, read),
        );
        let mut i: usize = 0;
        while i < self.backgrounds.len()
            invariant
                i <= self.backgrounds@.len(),
                self@.backgrounds.len() == m0.backgrounds.len(),
                self@.backgrounds.len() == self.backgrounds@.len(),
                self@.sources == m0.sources,
                self@.image_folder == m0.image_folder,
                self@.name == m0.name,
                self@.resolution == m0.resolution,
                goal == m0.backgrounds.map_values(
                    |b: Option<BackgroundModel>| spec_update_matching(b, key@, original@, read),
                ),
                m0.wf(),
                forall|j: int| 0 <= j < i ==> self@.backgrounds[j] == goal[j],
                forall|j: int|
                    i <= j < m0.backgrounds.len() ==> self@.backgrounds[j] == m0.backgrounds[j],
            decreases self.backgrounds@.len() - i,
        {
            let ghost rawv = self.backgrounds@;
            proof {
                assert(self@.backgrounds[i as int] == (match rawv[i as int] {
                    Some(b) => Some(b@),
                    None => None::<BackgroundModel>,
                }));
            }
            let slot = vec_index_mut(&mut self.backgrounds, i);
            match slot {
                Some(b) => {
                    let rel = b.original.compare(key);
                    if !matches!(rel, KeyRelation::Distinct) {
                        b.update_from(key.clone(), original, read);
                    }
                },
                None => {},
            }
            proof {
                assert(self.backgrounds@ == rawv.update(
                    i as int,
                    self.backgrounds@[i as int],
                ));
                assert forall|j: int| 0 <= j < m0.backgrounds.len() && j != i as int
                    implies self@.backgrounds[j] == (match rawv[j] {
                    Some(b) => Some(b@),
                    None => None::<BackgroundModel>,
                }) by {
                    assert(self.backgrounds@[j] == rawv[j]);
                }
                assert(self@.backgrounds[i as int] == goal[i as int]);
            }
            i = i + 1;
        }
        proof {
            assert(self@.backgrounds =~= goal);
        }
    }

    /// Remove every record whose key relates to `key` as anything but
    /// `Distinct`.
    pub fn remove_matching_records(&mut self, key: &OriginalKey)
        requires
            old(self)@.wf(),
        ensures
            final(self)@ == (BackgroundSetModel {
                backgrounds: old(self)@.backgrounds.map_values(
                    |b: Option<BackgroundModel>| spec_remove_matching(b, key@),
                ),
                ..old(self)@
            }),
            final(self)@.wf(),
    {
        let ghost m0 = self@;
        let ghost goal = m0.backgrounds.map_values(
            |b: Option<BackgroundModel>| spec_remove_matching(b, key@),
        );
        let mut i: usize = 0;
        while i < self.backgrounds.len()
            invariant
                i <= self.backgrounds@.len(),
                self@.backgrounds.len() == m0.backgrounds.len(),
                self@.backgrounds.len() == self.backgrounds@.len(),
                self@.sources == m0.sources,
                self@.image_folder == m0.image_folder,
                self@.name == m0.name,
                self@.resolution == m0.resolution,
                goal == m0.backgrounds.map_values(
                    |b: Option<BackgroundModel>| spec_remove_matching(b, key@),
                ),
                forall|j: int| 0 <= j < i ==> self@.backgrounds[j] == goal[j],
                forall|j: int|
                    i <= j < m0.backgrounds.len() ==> self@.backgrounds[j] == m0.backgrounds[j],
            decreases self.backgrounds@.len() - i,
        {
            let ghost rawv = self.backgrounds@;
            proof {
                assert(self@.backgrounds[i as int] == (match rawv[i as int] {
                    Some(b) => Some(b@),
                    None => None::<BackgroundModel>,
                }));
            }
            let remove = match &self.backgrounds[i] {
                Some(b) => !matches!(b.original.compare(key), KeyRelation::Distinct),
                None => false,
            };
            if remove {
                let slot = vec_index_mut(&mut self.backgrounds, i);
                *slot = None;
            }
            proof {
                assert forall|j: int| 0 <= j < m0.backgrounds.len() && j != i as int
                    implies self@.backgrounds[j] == (match rawv[j] {
                    Some(b) => Some(b@),
                    None => None::<BackgroundModel>,
                }) by {
                    assert(self.backgrounds@[j] == rawv[j]);
                }
                assert(self@.backgrounds[i as int] == goal[i as int]);
            }
            i = i + 1;
        }
        proof {
            assert(self@.backgrounds =~= goal);
        }
    }

    /// Flag every record whose key relates to `key` as anything but
    /// `Distinct` as missing its original; the records stay in the library,
    /// but become non-editable.
    pub fn mark_matching_missing(&mut self, key: &OriginalKey)
        requires
            old(self)@.wf(),
        ensures
            final(self)@ == (BackgroundSetModel {
                backgrounds: old(self)@.backgrounds.map_values(
                    |b: Option<BackgroundModel>| spec_mark_missing(b, key@),
                ),
                ..old(self)@
            }),
            final(self)@.wf(),
    {
        let ghost m0 = self@;
        let ghost goal = m0.backgrounds.map_values(
            |b: Option<BackgroundModel>| spec_mark_missing(b, key@),
        );
        let mut i: usize = 0;
        while i < self.backgrounds.len()
            invariant
                i <= self.backgrounds@.len(),
                self@.backgrounds.len() == m0.backgrounds.len(),
                self@.backgrounds.len() == self.backgrounds@.len(),
                self@.sources == m0.sources,
                self@.image_folder == m0.image_folder,
                self@.name == m0.name,
                self@.resolution == m0.resolution,
                goal == m0.backgrounds.map_values(
                    |b: Option<BackgroundModel>| spec_mark_missing(b, key@),
                ),
                forall|j: int| 0 <= j < i ==> self@.backgrounds[j] == goal[j],
                forall|j: int|
                    i <= j < m0.backgrounds.len() ==> self@.backgrounds[j] == m0.backgrounds[j],
            decreases self.backgrounds@.len() - i,
        {
            let ghost rawv = self.backgrounds@;
            proof {
                assert(self@.backgrounds[i as int] == (match rawv[i as int] {
                    Some(b) => Some(b@),
                    None => None::<BackgroundModel>,
                }));
            }
            let slot = vec_index_mut(&mut self.backgrounds, i);
            match slot {
                Some(b) => {
                    if !matches!(b.original.compare(key), KeyRelation::Distinct) {
                        b.flags.original_missing = true;
                        b.mark_unavailable();
                    }
                },
                None => {},
            }
            proof {
                assert forall|j: int| 0 <= j < m0.backgrounds.len() && j != i as int
                    implies self@.backgrounds[j] == (match rawv[j] {
                    Some(b) => Some(b@),
                    None => None::<BackgroundModel>,
                }) by {
                    assert(self.backgrounds@[j] == rawv[j]);
                }
                assert(self@.backgrounds[i as int] == goal[i as int]);
            }
            i = i + 1;
        }
        proof {
            assert(self@.backgrounds =~= goal);
        }
    }

    /// Mark every record whose key relates to `key` as `SameOriginal` as
    /// currently unreadable, remembering the last observed size.
    pub fn mark_matching_unavailable(&mut self, key: &OriginalKey)
        requires
            old(self)@.wf(),
        ensures
            final(self)@ == (BackgroundSetModel {
                backgrounds: old(self)@.backgrounds.map_values(
                    |b: Option<BackgroundModel>| spec_mark_unavailable(b, key@),
                ),
                ..old(self)@
            }),
            final(self)@.wf(),
    {
        let ghost m0 = self@;
        let ghost goal = m0.backgrounds.map_values(
            |b: Option<BackgroundModel>| spec_mark_unavailable(b, key@),
        );
        let mut i: usize = 0;
        while i < self.backgrounds.len()
            invariant
                i <= self.backgrounds@.len(),
                self@.backgrounds.len() == m0.backgrounds.len(),
                self@.backgrounds.len() == self.backgrounds@.len(),
                self@.sources == m0.sources,
                self@.image_folder == m0.image_folder,
                self@.name == m0.name,
                self@.resolution == m0.resolution,
                goal == m0.backgrounds.map_values(
                    |b: Option<BackgroundModel>| spec_mark_unavailable(b, key@),
                ),
                forall|j: int| 0 <= j < i ==> self@.backgrounds[j] == goal[j],
                forall|j: int|
                    i <= j < m0.backgrounds.len() ==> self@.backgrounds[j] == m0.backgrounds[j],
            decreases self.backgrounds@.len() - i,
        {
            let ghost rawv = self.backgrounds@;
            proof {
                assert(self@.backgrounds[i as int] == (match rawv[i as int] {
                    Some(b) => Some(b@),
                    None => None::<BackgroundModel>,
                }));
            }
            let slot = vec_index_mut(&mut self.backgrounds, i);
            match slot {
                Some(b) => {
                    if matches!(b.original.compare(key), KeyRelation::SameOriginal) {
                        b.mark_unavailable();
                    }
                },
                None => {},
            }
            proof {
                assert forall|j: int| 0 <= j < m0.backgrounds.len() && j != i as int
                    implies self@.backgrounds[j] == (match rawv[j] {
                    Some(b) => Some(b@),
                    None => None::<BackgroundModel>,
                }) by {
                    assert(self.backgrounds@[j] == rawv[j]);
                }
                assert(self@.backgrounds[i as int] == goal[i as int]);
            }
            i = i + 1;
        }
        proof {
            assert(self@.backgrounds =~= goal);
        }
    }
}

/// What updating after an `Altered` change does to one record slot: a live
/// record related to the key as anything but `Distinct` is updated from the
/// original; every other slot is untouched.
pub open spec fn spec_update_matching(
    b: Option<BackgroundModel>,
    key: KeyModel,
    original: OriginalFileModel,
    read: Option<(u32, u32)>,
) -> Option<BackgroundModel> {
    match b {
        Some(b) => if b.original.relation(key) != KeyRelation::Distinct {
            Some(b.spec_update_from(key, original, read))
        } else {
            Some(b)
        },
        None => None,
    }
}

/// What accepting a `Deleted` change does to one record slot: a live record
/// related to the key as anything but `Distinct` is removed; every other
/// slot is untouched.
pub open spec fn spec_remove_matching(b: Option<BackgroundModel>, key: KeyModel) -> Option<
    BackgroundModel,
> {
    match b {
        Some(b) => if b.original.relation(key) != KeyRelation::Distinct {
            None
        } else {
            Some(b)
        },
        None => None,
    }
}

/// What rejecting an `Altered` or `Deleted` change does to one record slot:
/// a live record related to the key as anything but `Distinct` is flagged as
/// missing its original and made non-editable — its original no longer
/// counts as readable; every other slot is untouched.
pub open spec fn spec_mark_missing(b: Option<BackgroundModel>, key: KeyModel) -> Option<
    BackgroundModel,
> {
    match b {
        Some(b) => if b.original.relation(key) != KeyRelation::Distinct {
            Some(
                BackgroundModel {
                    flags: DesktopBackgroundFlags { original_missing: true, ..b.flags },
                    original_meta: OriginalMeta::Unavailable {
                        last_known_size: b.original_meta.spec_last_known_size(),
                    },
                    ..b
                },
            )
        } else {
            Some(b)
        },
        None => None,
    }
}

/// What an `Unavailable` change does to one record slot: a live record whose
/// key is the same original is marked currently unreadable; every other slot
/// is untouched.
pub open spec fn spec_mark_unavailable(b: Option<BackgroundModel>, key: KeyModel) -> Option<
    BackgroundModel,
> {
    match b {
        Some(b) => if b.original.relation(key) == KeyRelation::SameOriginal {
            Some(
                BackgroundModel {
                    original_meta: OriginalMeta::Unavailable {
                        last_known_size: b.original_meta.spec_last_known_size(),
                    },
                    ..b
                },
            )
        } else {
            Some(b)
        },
        None => None,
    }
}

} // verus!
