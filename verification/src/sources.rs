//! Sources of originals, and the change diff a source reload produces.
//!
//! A source names a set of originals and can be asked for one by key, or
//! rescanned. Rescanning compares an observed snapshot of the source's
//! current contents against the last-known index and emits a list of
//! classified changes, updating the index as it goes.

use vstd::prelude::*;
use vstd::string::StringExecFns;

use crate::hashing::{content_digest, hash_content};
use crate::imaging::{decoded_dimensions, image_dimensions};
use crate::keys::{
    bytes_eq, clone_bytes, CompareKey, FileKey, KeyData, KeyModel, OriginalKey, HASH_SIZE,
};

verus! {

/// Result of asking a source for an original by key.
pub enum OriginalResult<O> {
    /// The key matches the source's current index exactly.
    Original(O),
    /// The identity is known but the content digest differs: the original
    /// still exists, but its current content key is not the requested one.
    ContentMismatch(O),
    /// The key does not fit this source's key schema.
    WrongSource,
    /// The identity is absent from the source.
    NotFound,
}

impl<O> OriginalResult<O> {
    /// Which original, if any, the result carries.
    pub open spec fn spec_as_option(self) -> Option<O> {
        match self {
            OriginalResult::Original(o) => Some(o),
            OriginalResult::ContentMismatch(o) => Some(o),
            OriginalResult::WrongSource => None,
            OriginalResult::NotFound => None,
        }
    }

    /// The carried original, dropping the classification.
    pub fn as_option(self) -> (r: Option<O>)
        ensures
            r == self.spec_as_option(),
    {
        match self {
            OriginalResult::Original(o) => Some(o),
            OriginalResult::ContentMismatch(o) => Some(o),
            OriginalResult::WrongSource => None,
            OriginalResult::NotFound => None,
        }
    }
}

/// Classification of one change observed by a reload.
pub enum ChangeKind {
    /// A new original has been discovered.
    New,
    /// An existing original has been deleted.
    Deleted,
    /// An existing original has been altered.
    Altered,
    /// An existing original has become unavailable, perhaps temporarily; the
    /// payload is a human-readable cause.
    Unavailable(String),
}

/// Model of a change classification.
pub ghost enum ChangeKindModel {
    New,
    Deleted,
    Altered,
    Unavailable(Seq<char>),
}

impl View for ChangeKind {
    type V = ChangeKindModel;

    open spec fn view(&self) -> ChangeKindModel {
        match self {
            ChangeKind::New => ChangeKindModel::New,
            ChangeKind::Deleted => ChangeKindModel::Deleted,
            ChangeKind::Altered => ChangeKindModel::Altered,
            ChangeKind::Unavailable(cause) => ChangeKindModel::Unavailable(cause@),
        }
    }
}

/// One change observed by a reload: which original, and what happened to it.
pub struct OriginalChange {
    pub key: OriginalKey,
    pub kind: ChangeKind,
}

/// Model of an observed change.
pub ghost struct ChangeModel {
    pub key: KeyModel,
    pub kind: ChangeKindModel,
}

impl View for OriginalChange {
    type V = ChangeModel;

    open spec fn view(&self) -> ChangeModel {
        ChangeModel { key: self.key@, kind: self.kind@ }
    }
}

/// The change list as a reload reports it.
pub open spec fn changes_view(s: Seq<OriginalChange>) -> Seq<ChangeModel> {
    s.map_values(|c: OriginalChange| c@)
}

/// One original known to a folder source: the file's name, its full path,
/// and the digest of its content as of the last reload.
pub struct OriginalFile {
    pub filename: String,
    pub path: String,
    pub hash: Vec<u8>,
    pub mismatch: bool,
}

/// Model of an indexed original file.
pub ghost struct OriginalFileModel {
    pub filename: Seq<char>,
    pub path: Seq<char>,
    pub hash: Seq<u8>,
    pub mismatch: bool,
}

impl View for OriginalFile {
    type V = OriginalFileModel;

    open spec fn view(&self) -> OriginalFileModel {
        OriginalFileModel {
            filename: self.filename@,
            path: self.path@,
            hash: self.hash@,
            mismatch: self.mismatch,
        }
    }
}

impl Clone for OriginalFile {
    fn clone(&self) -> (r: Self)
        ensures
            r@ == self@,
    {
        OriginalFile {
            filename: self.filename.clone(),
            path: self.path.clone(),
            hash: clone_bytes(&self.hash),
            mismatch: self.mismatch,
        }
    }
}

impl OriginalFile {
    /// Display name of this original.
    pub fn name(&self) -> (r: String)
        ensures
            r@ == self@.filename,
    {
        self.filename.clone()
    }

    /// Human-readable location of this original.
    pub fn location(&self) -> (r: String)
        ensures
            r@ == self@.path,
    {
        self.path.clone()
    }

    /// The content key this original currently answers to.
    pub fn key(&self) -> (r: OriginalKey)
        ensures
            r@ == (KeyModel::Folder { filename: self@.filename, hash: self@.hash }),
    {
        OriginalKey::Folder(FileKey { filename: self.filename.clone(), hash: clone_bytes(&self.hash) })
    }
}

/// The index of a sequence of originals.
pub open spec fn files_view(s: Seq<OriginalFile>) -> Seq<OriginalFileModel> {
    s.map_values(|o: OriginalFile| o@)
}

/// Filenames are pairwise distinct.
pub open spec fn unique_filenames(s: Seq<OriginalFileModel>) -> bool {
    forall|i: int, j: int|
        0 <= i < j < s.len() ==> s[i].filename != s[j].filename
}

/// The first indexed original with the given filename, if any.
pub open spec fn spec_find_original(s: Seq<OriginalFileModel>, name: Seq<char>) -> Option<
    OriginalFileModel,
>
    decreases s.len(),
{
    if s.len() == 0 {
        None
    } else if s[0].filename == name {
        Some(s[0])
    } else {
        spec_find_original(s.drop_first(), name)
    }
}

/// The outcome of observing one file in a source's root directory.
pub enum FileReading {
    /// The file's bytes, as read from storage.
    Content(Vec<u8>),
    /// The file exists but could not be read; the payload is the cause.
    Error(String),
}

/// Model of a file observation.
pub ghost enum FileReadingModel {
    Content(Seq<u8>),
    Error(Seq<char>),
}

impl View for FileReading {
    type V = FileReadingModel;

    open spec fn view(&self) -> FileReadingModel {
        match self {
            FileReading::Content(bytes) => FileReadingModel::Content(bytes@),
            FileReading::Error(cause) => FileReadingModel::Error(cause@),
        }
    }
}

/// One file observed in the source's root directory.
pub struct SnapshotFile {
    pub filename: String,
    pub reading: FileReading,
}

/// Model of an observed file.
pub ghost struct SnapshotFileModel {
    pub filename: Seq<char>,
    pub reading: FileReadingModel,
}

impl View for SnapshotFile {
    type V = SnapshotFileModel;

    open spec fn view(&self) -> SnapshotFileModel {
        SnapshotFileModel { filename: self.filename@, reading: self.reading@ }
    }
}

/// An observation of the regular files directly inside a source's root
/// directory. An enumeration failure degrades to an empty observation.
pub struct FolderSnapshot {
    pub files: Vec<SnapshotFile>,
}

impl View for FolderSnapshot {
    type V = Seq<SnapshotFileModel>;

    open spec fn view(&self) -> Seq<SnapshotFileModel> {
        self.files@.map_values(|f: SnapshotFile| f@)
    }
}

/// Observed filenames are pairwise distinct, as names in one directory are.
pub open spec fn unique_snapshot_names(s: Seq<SnapshotFileModel>) -> bool {
    forall|i: int, j: int| 0 <= i < j < s.len() ==> s[i].filename != s[j].filename
}

impl FolderSnapshot {
    /// Directory entries have pairwise distinct names.
    pub open spec fn wf(&self) -> bool {
        unique_snapshot_names(self@)
    }
}

/// The first observed file with the given name, if any.
pub open spec fn spec_snap_find(files: Seq<SnapshotFileModel>, name: Seq<char>) -> Option<
    FileReadingModel,
>
    decreases files.len(),
{
    if files.len() == 0 {
        None
    } else if files[0].filename == name {
        Some(files[0].reading)
    } else {
        spec_snap_find(files.drop_first(), name)
    }
}

/// A source backed by a folder of image files.
pub struct FolderSource {
    folder: String,
    name: String,
    originals: Vec<OriginalFile>,
}

/// Model of a folder source.
pub ghost struct FolderSourceModel {
    pub folder: Seq<char>,
    pub name: Seq<char>,
    pub originals: Seq<OriginalFileModel>,
}

impl View for FolderSource {
    type V = FolderSourceModel;

    closed spec fn view(&self) -> FolderSourceModel {
        FolderSourceModel {
            folder: self.folder@,
            name: self.name@,
            originals: files_view(self.originals@),
        }
    }
}

impl FolderSourceModel {
    /// The index never lists one filename twice.
    pub open spec fn wf(self) -> bool {
        unique_filenames(self.originals)
    }
}

impl FolderSource {
    /// Create a source for `folder` with no known originals yet.
    pub fn new(folder: String, name: &str) -> (r: FolderSource)
        ensures
            r@.folder == folder@,
            r@.name == name@,
            r@.originals == Seq::<OriginalFileModel>::empty(),
            r@.wf(),
    {
        let r = FolderSource { folder, name: name.to_owned(), originals: Vec::new() };
        proof {
            assert(files_view(r.originals@) =~= Seq::<OriginalFileModel>::empty());
        }
        r
    }

    /// Display label of this source.
    pub fn name(&self) -> (r: &str)
        ensures
            r@ == self@.name,
    {
        self.name.as_str()
    }

    /// The folder this source scans.
    pub fn folder(&self) -> (r: &str)
        ensures
            r@ == self@.folder,
    {
        self.folder.as_str()
    }

    /// The originals currently known to this source.
    pub fn original_count(&self) -> (r: usize)
        ensures
            r == self@.originals.len(),
    {
        self.originals.len()
    }

    /// Look up an original by key. A key that does not fit this source's
    /// schema is refused as `WrongSource` rather than an error.
    pub fn original(&self, key: &OriginalKey) -> (r: OriginalResult<OriginalFile>)
        ensures
            (match r {
                OriginalResult::Original(o) => spec_source_original(self@, key@)
                    == OriginalResult::Original(o@),
                OriginalResult::ContentMismatch(o) => spec_source_original(self@, key@)
                    == OriginalResult::ContentMismatch(o@),
                OriginalResult::WrongSource => spec_source_original(self@, key@)
                    == OriginalResult::<OriginalFileModel>::WrongSource,
                OriginalResult::NotFound => spec_source_original(self@, key@)
                    == OriginalResult::<OriginalFileModel>::NotFound,
            }),
    {
        match key {
            OriginalKey::Opaque(_) => OriginalResult::WrongSource,
            OriginalKey::Folder(fk) => {
                match find_by_filename(&self.originals, &fk.filename) {
                    None => OriginalResult::NotFound,
                    Some(i) => {
                        let o = &self.originals[i];
                        if !o.mismatch && bytes_eq(&o.hash, &fk.hash) {
                            OriginalResult::Original(o.clone())
                        } else {
                            OriginalResult::ContentMismatch(o.clone())
                        }
                    },
                }
            },
        }
    }

    /// Rescan this source against an observed snapshot of its folder and
    /// return the classified changes.
    ///
    /// Known originals are checked first, in index order: missing files are
    /// deleted, unreadable ones reported unavailable with their stored state
    /// untouched, and files whose bytes digest differently are altered, the
    /// stored digest updated and the change keyed by the new content. Every
    /// snapshot file left unmatched is then a candidate discovery, in
    /// snapshot order: files that decode as images are adopted and reported
    /// `New`; others are silently skipped.
    pub fn reload(&mut self, snapshot: &FolderSnapshot) -> (changes: Vec<OriginalChange>)
        requires
            old(self)@.wf(),
            snapshot.wf(),
        ensures
            final(self)@ == spec_reload(old(self)@, snapshot@).0,
            changes_view(changes@) == spec_reload(old(self)@, snapshot@).1,
            final(self)@.wf(),
    {
        let ghost m0 = self@;
        let ghost afull = spec_diff_known(m0.originals, snapshot@);
        let ghost bfull = spec_diff_new(snapshot@, m0.originals, m0.folder);
        let mut kept: Vec<OriginalFile> = Vec::new();
        let mut changes: Vec<OriginalChange> = Vec::new();
        let mut i: usize = 0;
        proof {
            assert(m0.originals.skip(0) =~= m0.originals);
            assert(files_view(kept@) =~= Seq::<OriginalFileModel>::empty());
            assert(changes_view(changes@) =~= Seq::<ChangeModel>::empty());
            assert(afull.0 =~= files_view(kept@) + spec_diff_known(
                m0.originals.skip(0),
                snapshot@,
            ).0);
            assert(afull.1 =~= changes_view(changes@) + spec_diff_known(
                m0.originals.skip(0),
                snapshot@,
            ).1);
        }
        while i < self.originals.len()
            invariant
                i <= self.originals@.len(),
                self@ == m0,
                m0.originals.len() == self.originals@.len(),
                afull == spec_diff_known(m0.originals, snapshot@),
                afull.0 == files_view(kept@) + spec_diff_known(
                    m0.originals.skip(i as int),
                    snapshot@,
                ).0,
                afull.1 == changes_view(changes@) + spec_diff_known(
                    m0.originals.skip(i as int),
                    snapshot@,
                ).1,
            decreases self.originals@.len() - i,
        {
            let ghost suffix = m0.originals.skip(i as int);
            proof {
                assert(suffix[0] == m0.originals[i as int]);
                assert(m0.originals[i as int] == self.originals@[i as int]@);
                assert(suffix.drop_first() =~= m0.originals.skip(i as int + 1));
            }
            let ghost kept_before = files_view(kept@);
            let ghost changes_before = changes_view(changes@);
            let e = &self.originals[i];
            match snap_find(snapshot, &e.filename) {
                None => {
                    changes.push(OriginalChange { key: e.key(), kind: ChangeKind::Deleted });
                },
                Some(j) => {
                    match &snapshot.files[j].reading {
                        FileReading::Error(cause) => {
                            kept.push(e.clone());
                            changes.push(
                                OriginalChange {
                                    key: e.key(),
                                    kind: ChangeKind::Unavailable(cause.clone()),
                                },
                            );
                        },
                        FileReading::Content(bytes) => {
                            let h = hash_content(bytes);
                            if bytes_eq(&h, &e.hash) {
                                kept.push(e.clone());
                            } else {
                                let key = OriginalKey::Folder(
                                    FileKey {
                                        filename: e.filename.clone(),
                                        hash: clone_bytes(&h),
                                    },
                                );
                                kept.push(
                                    OriginalFile {
                                        filename: e.filename.clone(),
                                        path: e.path.clone(),
                                        hash: h,
                                        mismatch: e.mismatch,
                                    },
                                );
                                changes.push(OriginalChange { key, kind: ChangeKind::Altered });
                            }
                        },
                    }
                },
            }
            i = i + 1;
            proof {
                let head = spec_known_entry_result(suffix[0], snapshot@);
                let rest = spec_diff_known(m0.originals.skip(i as int), snapshot@);
                match head.0 {
                    Some(entry) => {
                        assert(files_view(kept@) =~= kept_before.push(entry));
                        assert(kept_before + (seq![entry] + rest.0) =~= kept_before.push(entry)
                            + rest.0);
                    },
                    None => {
                        assert(files_view(kept@) =~= kept_before);
                    },
                }
                match head.1 {
                    Some(c) => {
                        assert(changes_view(changes@) =~= changes_before.push(c));
                        assert(changes_before + (seq![c] + rest.1) =~= changes_before.push(c)
                            + rest.1);
                    },
                    None => {
                        assert(changes_view(changes@) =~= changes_before);
                    },
                }
            }
        }
        proof {
            assert(m0.originals.skip(m0.originals.len() as int)
                =~= Seq::<OriginalFileModel>::empty());
            assert(afull.0 =~= files_view(kept@));
            assert(afull.1 =~= changes_view(changes@));
            assert(snapshot@.skip(0) =~= snapshot@);
            assert(afull.0 + bfull.0 =~= files_view(kept@) + spec_diff_new(
                snapshot@.skip(0),
                m0.originals,
                m0.folder,
            ).0);
            assert(afull.1 + bfull.1 =~= changes_view(changes@) + spec_diff_new(
                snapshot@.skip(0),
                m0.originals,
                m0.folder,
            ).1);
        }
        let mut j: usize = 0;
        while j < snapshot.files.len()
            invariant
                j <= snapshot@.len(),
                snapshot@.len() == snapshot.files@.len(),
                self@ == m0,
                afull == spec_diff_known(m0.originals, snapshot@),
                bfull == spec_diff_new(snapshot@, m0.originals, m0.folder),
                afull.0 + bfull.0 == files_view(kept@) + spec_diff_new(
                    snapshot@.skip(j as int),
                    m0.originals,
                    m0.folder,
                ).0,
                afull.1 + bfull.1 == changes_view(changes@) + spec_diff_new(
                    snapshot@.skip(j as int),
                    m0.originals,
                    m0.folder,
                ).1,
            decreases snapshot@.len() - j,
        {
            let ghost suffix = snapshot@.skip(j as int);
            proof {
                assert(suffix[0] == snapshot@[j as int]);
                assert(suffix.drop_first() =~= snapshot@.skip(j as int + 1));
            }
            let ghost kept_before = files_view(kept@);
            let ghost changes_before = changes_view(changes@);
            let f = &snapshot.files[j];
            let known = find_by_filename(&self.originals, &f.filename);
            if known.is_none() {
                match &f.reading {
                    FileReading::Error(_) => {},
                    FileReading::Content(bytes) => {
                        match image_dimensions(bytes) {
                            None => {},
                            Some(_dims) => {
                                let h = hash_content(bytes);
                                let key = OriginalKey::Folder(
                                    FileKey {
                                        filename: f.filename.clone(),
                                        hash: clone_bytes(&h),
                                    },
                                );
                                let path = self.folder.clone().concat("/").concat(
                                    f.filename.as_str(),
                                );
                                kept.push(
                                    OriginalFile {
                                        filename: f.filename.clone(),
                                        path,
                                        hash: h,
                                        mismatch: false,
                                    },
                                );
                                changes.push(OriginalChange { key, kind: ChangeKind::New });
                            },
                        }
                    },
                }
            }
            j = j + 1;
            proof {
                let rest = spec_diff_new(snapshot@.skip(j as int), m0.originals, m0.folder);
                if spec_find_original(m0.originals, suffix[0].filename) is Some {
                    assert(files_view(kept@) =~= kept_before);
                    assert(changes_view(changes@) =~= changes_before);
                } else {
                    match spec_new_entry(suffix[0], m0.folder) {
                        None => {
                            assert(files_view(kept@) =~= kept_before);
                            assert(changes_view(changes@) =~= changes_before);
                        },
                        Some(ec) => {
                            assert(files_view(kept@) =~= kept_before.push(ec.0));
                            assert(kept_before + (seq![ec.0] + rest.0) =~= kept_before.push(ec.0)
                                + rest.0);
                            assert(changes_view(changes@) =~= changes_before.push(ec.1));
                            assert(changes_before + (seq![ec.1] + rest.1) =~= changes_before.push(
                                ec.1,
                            ) + rest.1);
                        },
                    }
                }
            }
        }
        proof {
            assert(snapshot@.skip(snapshot@.len() as int) =~= Seq::<SnapshotFileModel>::empty());
            assert(afull.0 + bfull.0 =~= files_view(kept@));
            assert(afull.1 + bfull.1 =~= changes_view(changes@));
        }
        self.originals = kept;
        proof {
            lemma_reload_preserves_wf(m0, snapshot@);
        }
        changes
    }

    /// Reassemble a source from its persisted parts.
    pub fn from_parts(folder: String, name: String, originals: Vec<OriginalFile>) -> (r:
        FolderSource)
        requires
            unique_filenames(files_view(originals@)),
        ensures
            r@.folder == folder@,
            r@.name == name@,
            r@.originals == files_view(originals@),
            r@.wf(),
    {
        FolderSource { folder, name, originals }
    }

    /// The source's current index of originals, for persistence.
    pub fn index(&self) -> (r: &Vec<OriginalFile>)
        ensures
            files_view(r@) == self@.originals,
    {
        &self.originals
    }

    /// Reconstruct a live content key from its transport form. Raw data that
    /// does not fit this source's key schema (a digest of the wrong width)
    /// yields an opaque key, which every lookup refuses as `WrongSource`.
    pub fn assemble_key(&self, data: KeyData) -> (r: OriginalKey)
        ensures
            r@ == spec_assemble_key(data.filename@, data.hash@),
    {
        if data.hash.len() == HASH_SIZE {
            OriginalKey::Folder(FileKey { filename: data.filename, hash: data.hash })
        } else {
            OriginalKey::Opaque(data)
        }
    }
}

/// What a folder source answers for a given key: `Original` when the key
/// matches the index exactly, `ContentMismatch` when the identity is known
/// but the digest differs (or the entry is flagged mismatched), `NotFound`
/// when the identity is absent, and `WrongSource` for a key of another
/// schema.
pub open spec fn spec_source_original(m: FolderSourceModel, key: KeyModel) -> OriginalResult<
    OriginalFileModel,
> {
    match key {
        KeyModel::Folder { filename, hash } => match spec_find_original(m.originals, filename) {
            None => OriginalResult::NotFound,
            Some(o) => if !o.mismatch && o.hash == hash {
                OriginalResult::Original(o)
            } else {
                OriginalResult::ContentMismatch(o)
            },
        },
        KeyModel::Opaque { .. } => OriginalResult::WrongSource,
    }
}

/// What `assemble_key` yields for given transport data.
pub open spec fn spec_assemble_key(filename: Seq<char>, hash: Seq<u8>) -> KeyModel {
    if hash.len() == HASH_SIZE {
        KeyModel::Folder { filename, hash }
    } else {
        KeyModel::Opaque { filename, hash }
    }
}

/// What one known original contributes to a reload against a snapshot: the
/// surviving index entry, if any, and the emitted change, if any.
///
/// An original absent from the snapshot is deleted. One that could not be
/// read is reported unavailable and its stored state left untouched, so a
/// transient error never looks like a deletion. One whose bytes digest
/// differently than last time is altered: the stored digest is updated, and
/// the change carries the key of the content now in the source.
pub open spec fn spec_known_entry_result(
    e: OriginalFileModel,
    snap: Seq<SnapshotFileModel>,
) -> (Option<OriginalFileModel>, Option<ChangeModel>) {
    match spec_snap_find(snap, e.filename) {
        None => (
            None,
            Some(
                ChangeModel {
                    key: KeyModel::Folder { filename: e.filename, hash: e.hash },
                    kind: ChangeKindModel::Deleted,
                },
            ),
        ),
        Some(FileReadingModel::Error(cause)) => (
            Some(e),
            Some(
                ChangeModel {
                    key: KeyModel::Folder { filename: e.filename, hash: e.hash },
                    kind: ChangeKindModel::Unavailable(cause),
                },
            ),
        ),
        Some(FileReadingModel::Content(bytes)) => {
            let h = content_digest(bytes);
            if h == e.hash {
                (Some(e), None)
            } else {
                (
                    Some(OriginalFileModel { hash: h, ..e }),
                    Some(
                        ChangeModel {
                            key: KeyModel::Folder { filename: e.filename, hash: h },
                            kind: ChangeKindModel::Altered,
                        },
                    ),
                )
            }
        },
    }
}

/// First reload pass: every known original checked against the snapshot, in
/// index order.
pub open spec fn spec_diff_known(
    originals: Seq<OriginalFileModel>,
    snap: Seq<SnapshotFileModel>,
) -> (Seq<OriginalFileModel>, Seq<ChangeModel>)
    decreases originals.len(),
{
    if originals.len() == 0 {
        (Seq::<OriginalFileModel>::empty(), Seq::<ChangeModel>::empty())
    } else {
        let head = spec_known_entry_result(originals[0], snap);
        let rest = spec_diff_known(originals.drop_first(), snap);
        let kept = match head.0 {
            Some(e) => seq![e] + rest.0,
            None => rest.0,
        };
        let emitted = match head.1 {
            Some(c) => seq![c] + rest.1,
            None => rest.1,
        };
        (kept, emitted)
    }
}

/// What one unmatched snapshot file contributes to a reload: a new original
/// and a `New` change when the file's bytes decode as an image, and nothing
/// otherwise. Unreadable and undecodable files are skipped silently: this is
/// a deliberate inclusion filter, not an error path.
pub open spec fn spec_new_entry(f: SnapshotFileModel, folder: Seq<char>) -> Option<
    (OriginalFileModel, ChangeModel),
> {
    match f.reading {
        FileReadingModel::Error(_) => None,
        FileReadingModel::Content(bytes) => {
            if decoded_dimensions(bytes) is Some {
                let h = content_digest(bytes);
                Some(
                    (
                        OriginalFileModel {
                            filename: f.filename,
                            path: folder + "/"@ + f.filename,
                            hash: h,
                            mismatch: false,
                        },
                        ChangeModel {
                            key: KeyModel::Folder { filename: f.filename, hash: h },
                            kind: ChangeKindModel::New,
                        },
                    ),
                )
            } else {
                None
            }
        },
    }
}

/// Second reload pass: every snapshot file not matched by a known original,
/// in snapshot order.
pub open spec fn spec_diff_new(
    files: Seq<SnapshotFileModel>,
    known: Seq<OriginalFileModel>,
    folder: Seq<char>,
) -> (Seq<OriginalFileModel>, Seq<ChangeModel>)
    decreases files.len(),
{
    if files.len() == 0 {
        (Seq::<OriginalFileModel>::empty(), Seq::<ChangeModel>::empty())
    } else {
        let rest = spec_diff_new(files.drop_first(), known, folder);
        if spec_find_original(known, files[0].filename) is Some {
            rest
        } else {
            match spec_new_entry(files[0], folder) {
                None => rest,
                Some(ec) => (seq![ec.0] + rest.0, seq![ec.1] + rest.1),
            }
        }
    }
}

/// What `reload` computes: the new index and the change list, deletions and
/// alterations of known originals first (in index order), discoveries after
/// them (in snapshot order).
pub open spec fn spec_reload(m: FolderSourceModel, snap: Seq<SnapshotFileModel>) -> (
    FolderSourceModel,
    Seq<ChangeModel>,
) {
    let a = spec_diff_known(m.originals, snap);
    let b = spec_diff_new(snap, m.originals, m.folder);
    (FolderSourceModel { originals: a.0 + b.0, ..m }, a.1 + b.1)
}

/// Find the first indexed original with the given filename.
fn find_by_filename(files: &Vec<OriginalFile>, name: &String) -> (r: Option<usize>)
    ensures
        (match r {
            Some(i) => 0 <= i < files@.len() && files@[i as int].filename@ == name@
                && spec_find_original(files_view(files@), name@) == Some(files@[i as int]@),
            None => spec_find_original(files_view(files@), name@) is None,
        }),
{
    let mut i: usize = 0;
    proof {
        assert(files_view(files@).skip(0) =~= files_view(files@));
    }
    while i < files.len()
        invariant
            i <= files@.len(),
            spec_find_original(files_view(files@), name@) == spec_find_original(
                files_view(files@).skip(i as int),
                name@,
            ),
        decreases files@.len() - i,
    {
        proof {
            assert(files_view(files@).skip(i as int)[0] == files@[i as int]@);
            assert(files_view(files@).skip(i as int).drop_first() =~= files_view(files@).skip(
                i as int + 1,
            ));
        }
        if files[i].filename.eq(name) {
            return Some(i);
        }
        i = i + 1;
    }
    proof {
        assert(files_view(files@).skip(files@.len() as int) =~= Seq::<OriginalFileModel>::empty());
    }
    None
}

/// Copy a list of originals.
pub fn clone_files(files: &Vec<OriginalFile>) -> (r: Vec<OriginalFile>)
    ensures
        files_view(r@) == files_view(files@),
{
    let mut out: Vec<OriginalFile> = Vec::new();
    let mut i: usize = 0;
    while i < files.len()
        invariant
            i <= files@.len(),
            files_view(out@) == files_view(files@).take(i as int),
        decreases files@.len() - i,
    {
        let ghost before = files_view(out@);
        out.push(files[i].clone());
        i = i + 1;
        proof {
            assert(files_view(out@) =~= before.push(files@[i - 1]@));
            assert(files_view(files@).take(i as int) =~= files_view(files@).take(i - 1).push(
                files_view(files@)[i - 1],
            ));
        }
    }
    proof {
        assert(files_view(files@).take(files@.len() as int) =~= files_view(files@));
    }
    out
}

/// Check that no filename occurs twice in a list of originals.
pub fn check_unique_filenames(files: &Vec<OriginalFile>) -> (r: bool)
    ensures
        r == unique_filenames(files_view(files@)),
{
    let ghost fv = files_view(files@);
    let mut i: usize = 0;
    while i < files.len()
        invariant
            i <= files@.len(),
            fv == files_view(files@),
            fv.len() == files@.len(),
            forall|a: int, b: int| 0 <= a < b < i ==> fv[a].filename != fv[b].filename,
        decreases files@.len() - i,
    {
        let mut k: usize = 0;
        while k < i
            invariant
                k <= i < files@.len(),
                fv == files_view(files@),
                fv.len() == files@.len(),
                forall|a: int| 0 <= a < k ==> fv[a].filename != fv[i as int].filename,
            decreases i - k,
        {
            if files[k].filename.eq(&files[i].filename) {
                proof {
                    assert(fv[k as int].filename == fv[i as int].filename);
                }
                return false;
            }
            k = k + 1;
        }
        i = i + 1;
    }
    true
}

/// Some original in the sequence bears this filename.
pub open spec fn contains_filename(s: Seq<OriginalFileModel>, name: Seq<char>) -> bool {
    exists|i: int| 0 <= i < s.len() && s[i].filename == name
}

/// Finding by filename succeeds exactly when some entry bears the name.
pub proof fn lemma_find_contains(s: Seq<OriginalFileModel>, name: Seq<char>)
    ensures
        spec_find_original(s, name) is Some <==> contains_filename(s, name),
    decreases s.len(),
{
    if s.len() > 0 {
        lemma_find_contains(s.drop_first(), name);
        if s[0].filename == name {
        } else {
            if contains_filename(s, name) {
                let i = choose|i: int| 0 <= i < s.len() && s[i].filename == name;
                assert(s.drop_first()[i - 1] == s[i]);
            }
            if contains_filename(s.drop_first(), name) {
                let i = choose|i: int|
                    0 <= i < s.drop_first().len() && s.drop_first()[i].filename == name;
                assert(s[i + 1] == s.drop_first()[i]);
            }
        }
    }
}

/// The first reload pass keeps index order, loses no filename to a new one,
/// and keeps the filenames pairwise distinct.
proof fn lemma_diff_known_wf(originals: Seq<OriginalFileModel>, snap: Seq<SnapshotFileModel>)
    requires
        unique_filenames(originals),
    ensures
        unique_filenames(spec_diff_known(originals, snap).0),
        forall|k: int|
            0 <= k < spec_diff_known(originals, snap).0.len() ==> contains_filename(
                originals,
                (#[trigger] spec_diff_known(originals, snap).0[k]).filename,
            ),
    decreases originals.len(),
{
    if originals.len() > 0 {
        let rest = originals.drop_first();
        assert(unique_filenames(rest)) by {
            assert(forall|i: int, j: int|
                0 <= i < j < rest.len() ==> rest[i] == originals[i + 1] && rest[j] == originals[j
                    + 1]);
        }
        lemma_diff_known_wf(rest, snap);
        let head = spec_known_entry_result(originals[0], snap);
        let r = spec_diff_known(rest, snap);
        let whole = spec_diff_known(originals, snap);
        assert(forall|k: int|
            0 <= k < r.0.len() && contains_filename(rest, (#[trigger] r.0[k]).filename)
                ==> contains_filename(originals, r.0[k].filename)) by {
            assert(forall|i: int|
                0 <= i < rest.len() ==> rest[i] == originals[i + 1]);
        }
        match head.0 {
            Some(e) => {
                assert(e.filename == originals[0].filename);
                assert(whole.0 == seq![e] + r.0);
                assert(whole.0[0] == e);
                assert(forall|k: int| 1 <= k < whole.0.len() ==> whole.0[k] == r.0[k - 1]);
                assert(forall|k: int|
                    1 <= k < whole.0.len() ==> contains_filename(
                        originals,
                        (#[trigger] whole.0[k]).filename,
                    ));
                assert(contains_filename(originals, whole.0[0].filename));
                assert(forall|k: int|
                    1 <= k < whole.0.len() ==> whole.0[k].filename != e.filename) by {
                    assert(forall|k: int|
                        0 <= k < r.0.len() ==> contains_filename(
                            rest,
                            (#[trigger] r.0[k]).filename,
                        ));
                    assert(forall|i: int|
                        0 <= i < rest.len() ==> (#[trigger] rest[i]).filename != originals[0]
                            .filename) by {
                        assert(forall|i: int|
                            0 <= i < rest.len() ==> rest[i] == originals[i + 1]);
                    }
                }
            },
            None => {
                assert(whole.0 == r.0);
            },
        }
    }
}

/// The second reload pass adopts only snapshot files unknown to the index,
/// keeps snapshot order, and keeps the adopted filenames pairwise distinct.
proof fn lemma_diff_new_wf(
    files: Seq<SnapshotFileModel>,
    known: Seq<OriginalFileModel>,
    folder: Seq<char>,
)
    requires
        unique_snapshot_names(files),
    ensures
        unique_filenames(spec_diff_new(files, known, folder).0),
        forall|k: int|
            0 <= k < spec_diff_new(files, known, folder).0.len() ==> !contains_filename(
                known,
                (#[trigger] spec_diff_new(files, known, folder).0[k]).filename,
            ),
    decreases files.len(),
{
    if files.len() > 0 {
        let rest = files.drop_first();
        assert(unique_snapshot_names(rest)) by {
            assert(forall|i: int|
                0 <= i < rest.len() ==> rest[i] == files[i + 1]);
        }
        lemma_diff_new_wf(rest, known, folder);
        let r = spec_diff_new(rest, known, folder);
        let whole = spec_diff_new(files, known, folder);
        if spec_find_original(known, files[0].filename) is Some {
            assert(whole.0 == r.0);
        } else {
            match spec_new_entry(files[0], folder) {
                None => {
                    assert(whole.0 == r.0);
                },
                Some(ec) => {
                    assert(whole.0 == seq![ec.0] + r.0);
                    assert(ec.0.filename == files[0].filename);
                    lemma_find_contains(known, files[0].filename);
                    assert(!contains_filename(known, whole.0[0].filename));
                    assert(forall|k: int| 1 <= k < whole.0.len() ==> whole.0[k] == r.0[k - 1]);
                    // entries of the rest bear filenames of the remaining
                    // snapshot files, all distinct from the head's name
                    lemma_diff_new_names(rest, known, folder);
                    assert(forall|k: int|
                        0 <= k < r.0.len() ==> (#[trigger] r.0[k]).filename != files[0].filename)
                        by {
                        assert(forall|i: int|
                            0 <= i < rest.len() ==> (#[trigger] rest[i]).filename != files[0]
                                .filename) by {
                            assert(forall|i: int|
                                0 <= i < rest.len() ==> rest[i] == files[i + 1]);
                        }
                    }
                },
            }
        }
    }
}

/// Every filename the second pass adopts is the name of some snapshot file.
proof fn lemma_diff_new_names(
    files: Seq<SnapshotFileModel>,
    known: Seq<OriginalFileModel>,
    folder: Seq<char>,
)
    ensures
        forall|k: int|
            0 <= k < spec_diff_new(files, known, folder).0.len() ==> exists|i: int|
                0 <= i < files.len() && (#[trigger] spec_diff_new(files, known, folder).0[k])
                    .filename == files[i].filename,
    decreases files.len(),
{
    if files.len() > 0 {
        let rest = files.drop_first();
        lemma_diff_new_names(rest, known, folder);
        let r = spec_diff_new(rest, known, folder);
        let whole = spec_diff_new(files, known, folder);
        assert(forall|i: int| 0 <= i < rest.len() ==> rest[i] == files[i + 1]);
        if spec_find_original(known, files[0].filename) is Some {
            assert(whole.0 == r.0);
        } else {
            match spec_new_entry(files[0], folder) {
                None => {
                    assert(whole.0 == r.0);
                },
                Some(ec) => {
                    assert(whole.0 == seq![ec.0] + r.0);
                    assert(whole.0[0].filename == files[0].filename);
                    assert(forall|k: int| 1 <= k < whole.0.len() ==> whole.0[k] == r.0[k - 1]);
                },
            }
        }
    }
}

/// A reload keeps the index well-formed: the two passes each stay unique,
/// and the second pass adopts no filename the first pass kept.
pub proof fn lemma_reload_preserves_wf(m: FolderSourceModel, snap: Seq<SnapshotFileModel>)
    requires
        m.wf(),
        unique_snapshot_names(snap),
    ensures
        spec_reload(m, snap).0.wf(),
{
    let a = spec_diff_known(m.originals, snap);
    let b = spec_diff_new(snap, m.originals, m.folder);
    lemma_diff_known_wf(m.originals, snap);
    lemma_diff_new_wf(snap, m.originals, m.folder);
    let whole = a.0 + b.0;
    assert(forall|i: int| 0 <= i < a.0.len() ==> whole[i] == a.0[i]);
    assert(forall|i: int|
        a.0.len() <= i < whole.len() ==> whole[i] == b.0[i - a.0.len()]);
    assert forall|i: int, j: int|
        0 <= i < j < whole.len() implies whole[i].filename != whole[j].filename by {
        if i < a.0.len() && j >= a.0.len() {
            assert(contains_filename(m.originals, a.0[i].filename));
            assert(!contains_filename(m.originals, b.0[j - a.0.len()].filename));
        }
    }
}

/// Every observed file could be read.
pub open spec fn all_readable(s: Seq<SnapshotFileModel>) -> bool {
    forall|i: int| 0 <= i < s.len() ==> (#[trigger] s[i]).reading is Content
}

/// A successful snapshot lookup returns the reading of some observed file
/// with that name.
proof fn lemma_snap_find_mem(snap: Seq<SnapshotFileModel>, name: Seq<char>)
    ensures
        spec_snap_find(snap, name) matches Some(r) ==> exists|i: int|
            0 <= i < snap.len() && (#[trigger] snap[i]).filename == name && snap[i].reading == r,
    decreases snap.len(),
{
    if snap.len() > 0 {
        lemma_snap_find_mem(snap.drop_first(), name);
        if snap[0].filename != name {
            if spec_snap_find(snap.drop_first(), name) is Some {
                let r = spec_snap_find(snap.drop_first(), name).unwrap();
                let i = choose|i: int|
                    0 <= i < snap.drop_first().len() && (#[trigger] snap.drop_first()[i]).filename
                        == name && snap.drop_first()[i].reading == r;
                assert(snap[i + 1] == snap.drop_first()[i]);
            }
        }
    }
}

/// With pairwise distinct names, looking up an observed file's own name
/// returns its reading.
proof fn lemma_snap_find_unique(snap: Seq<SnapshotFileModel>, i: int)
    requires
        unique_snapshot_names(snap),
        0 <= i < snap.len(),
    ensures
        spec_snap_find(snap, snap[i].filename) == Some(snap[i].reading),
    decreases snap.len(),
{
    if i == 0 {
    } else {
        assert(snap[0].filename != snap[i].filename);
        assert(unique_snapshot_names(snap.drop_first())) by {
            assert(forall|k: int|
                0 <= k < snap.drop_first().len() ==> snap.drop_first()[k] == snap[k + 1]);
        }
        assert(snap.drop_first()[i - 1] == snap[i]);
        lemma_snap_find_unique(snap.drop_first(), i - 1);
    }
}

/// Finding in a concatenation looks left first.
proof fn lemma_find_concat(s1: Seq<OriginalFileModel>, s2: Seq<OriginalFileModel>, name: Seq<char>)
    ensures
        spec_find_original(s1 + s2, name) == (if spec_find_original(s1, name) is Some {
            spec_find_original(s1, name)
        } else {
            spec_find_original(s2, name)
        }),
    decreases s1.len(),
{
    if s1.len() == 0 {
        assert(s1 + s2 =~= s2);
    } else {
        assert((s1 + s2)[0] == s1[0]);
        assert((s1 + s2).drop_first() =~= s1.drop_first() + s2);
        lemma_find_concat(s1.drop_first(), s2, name);
    }
}

/// When every file is readable, each entry the first pass keeps carries the
/// digest of the observed bytes of the file bearing its name.
proof fn lemma_diff_known_kept_hash(
    originals: Seq<OriginalFileModel>,
    snap: Seq<SnapshotFileModel>,
)
    requires
        all_readable(snap),
    ensures
        forall|k: int|
            0 <= k < spec_diff_known(originals, snap).0.len() ==> {
                let e = #[trigger] spec_diff_known(originals, snap).0[k];
                spec_snap_find(snap, e.filename) matches Some(FileReadingModel::Content(b))
                    && e.hash == content_digest(b)
            },
    decreases originals.len(),
{
    if originals.len() > 0 {
        lemma_diff_known_kept_hash(originals.drop_first(), snap);
        lemma_snap_find_mem(snap, originals[0].filename);
        let head = spec_known_entry_result(originals[0], snap);
        let r = spec_diff_known(originals.drop_first(), snap);
        let whole = spec_diff_known(originals, snap);
        match head.0 {
            Some(e) => {
                assert(whole.0 == seq![e] + r.0);
                assert(whole.0[0] == e);
                assert(forall|k: int| 1 <= k < whole.0.len() ==> whole.0[k] == r.0[k - 1]);
            },
            None => {
                assert(whole.0 == r.0);
            },
        }
    }
}

/// The first pass keeps exactly the known filenames that the snapshot still
/// shows.
proof fn lemma_diff_known_kept_iff(
    originals: Seq<OriginalFileModel>,
    snap: Seq<SnapshotFileModel>,
    name: Seq<char>,
)
    requires
        unique_filenames(originals),
    ensures
        spec_find_original(spec_diff_known(originals, snap).0, name) is Some <==> (
        spec_find_original(originals, name) is Some && spec_snap_find(snap, name) is Some),
    decreases originals.len(),
{
    if originals.len() > 0 {
        let rest = originals.drop_first();
        assert(unique_filenames(rest)) by {
            assert(forall|k: int| 0 <= k < rest.len() ==> rest[k] == originals[k + 1]);
        }
        lemma_diff_known_kept_iff(rest, snap, name);
        let head = spec_known_entry_result(originals[0], snap);
        let r = spec_diff_known(rest, snap);
        let whole = spec_diff_known(originals, snap);
        match head.0 {
            Some(e) => {
                assert(e.filename == originals[0].filename);
                assert(whole.0 == seq![e] + r.0);
                assert(whole.0[0] == e);
                assert(whole.0.drop_first() =~= r.0);
                if name == originals[0].filename {
                    assert(spec_snap_find(snap, name) is Some);
                }
            },
            None => {
                assert(whole.0 == r.0);
                if name == originals[0].filename {
                    // the head was deleted: its name is absent from the rest,
                    // so it is kept nowhere
                    assert(spec_snap_find(snap, name) is None);
                    if spec_find_original(r.0, name) is Some {
                        lemma_diff_known_wf(rest, snap);
                        lemma_find_contains(r.0, name);
                        let k = choose|k: int| 0 <= k < r.0.len() && r.0[k].filename == name;
                        assert(contains_filename(rest, name));
                        let i = choose|i: int| 0 <= i < rest.len() && rest[i].filename == name;
                        assert(rest[i] == originals[i + 1]);
                        assert(false);
                    }
                }
            },
        }
    }
}

/// Each entry the second pass adopts carries the digest of the observed
/// bytes of a decodable snapshot file bearing its name.
proof fn lemma_diff_new_entries(
    files: Seq<SnapshotFileModel>,
    known: Seq<OriginalFileModel>,
    folder: Seq<char>,
)
    ensures
        forall|k: int|
            0 <= k < spec_diff_new(files, known, folder).0.len() ==> exists|i: int|
                0 <= i < files.len() && {
                    let e = #[trigger] spec_diff_new(files, known, folder).0[k];
                    &&& e.filename == (#[trigger] files[i]).filename
                    &&& files[i].reading matches FileReadingModel::Content(b) && e.hash
                        == content_digest(b) && decoded_dimensions(b) is Some
                },
    decreases files.len(),
{
    if files.len() > 0 {
        let rest = files.drop_first();
        lemma_diff_new_entries(rest, known, folder);
        let r = spec_diff_new(rest, known, folder);
        let whole = spec_diff_new(files, known, folder);
        assert(forall|i: int| 0 <= i < rest.len() ==> rest[i] == files[i + 1]);
        if spec_find_original(known, files[0].filename) is Some {
            assert(whole.0 == r.0);
        } else {
            match spec_new_entry(files[0], folder) {
                None => {
                    assert(whole.0 == r.0);
                },
                Some(ec) => {
                    assert(whole.0 == seq![ec.0] + r.0);
                    assert(whole.0[0] == ec.0);
                    assert(forall|k: int| 1 <= k < whole.0.len() ==> whole.0[k] == r.0[k - 1]);
                },
            }
        }
    }
}

/// A snapshot file unknown to the index and decodable as an image is indeed
/// adopted by the second pass.
proof fn lemma_diff_new_complete(
    files: Seq<SnapshotFileModel>,
    known: Seq<OriginalFileModel>,
    folder: Seq<char>,
    i: int,
)
    requires
        0 <= i < files.len(),
        spec_find_original(known, files[i].filename) is None,
        spec_new_entry(files[i], folder) is Some,
    ensures
        contains_filename(spec_diff_new(files, known, folder).0, files[i].filename),
    decreases files.len(),
{
    let rest = files.drop_first();
    let r = spec_diff_new(rest, known, folder);
    let whole = spec_diff_new(files, known, folder);
    if i == 0 {
        assert(whole.0[0].filename == files[0].filename);
    } else {
        assert(rest[i - 1] == files[i]);
        lemma_diff_new_complete(rest, known, folder, i - 1);
        let k = choose|k: int| 0 <= k < r.0.len() && r.0[k].filename == files[i].filename;
        if spec_find_original(known, files[0].filename) is Some {
            assert(whole.0 == r.0);
        } else {
            match spec_new_entry(files[0], folder) {
                None => {
                    assert(whole.0 == r.0);
                },
                Some(ec) => {
                    assert(whole.0 == seq![ec.0] + r.0);
                    assert(whole.0[k + 1] == r.0[k]);
                },
            }
        }
    }
}

/// When every known original's file is observed with unchanged bytes, the
/// first pass reports nothing and keeps the index as it is.
proof fn lemma_diff_known_no_changes(
    originals: Seq<OriginalFileModel>,
    snap: Seq<SnapshotFileModel>,
)
    requires
        forall|k: int|
            0 <= k < originals.len() ==> {
                let e = #[trigger] originals[k];
                spec_snap_find(snap, e.filename) matches Some(FileReadingModel::Content(b))
                    && e.hash == content_digest(b)
            },
    ensures
        spec_diff_known(originals, snap).0 == originals,
        spec_diff_known(originals, snap).1 == Seq::<ChangeModel>::empty(),
    decreases originals.len(),
{
    if originals.len() == 0 {
        assert(spec_diff_known(originals, snap).0 =~= originals);
    } else {
        let rest = originals.drop_first();
        assert(forall|k: int| 0 <= k < rest.len() ==> rest[k] == originals[k + 1]);
        lemma_diff_known_no_changes(rest, snap);
        let whole = spec_diff_known(originals, snap);
        assert(whole.0 =~= seq![originals[0]] + rest);
        assert(seq![originals[0]] + rest =~= originals);
    }
}

/// When every snapshot file is either already known or not adoptable, the
/// second pass adds nothing and reports nothing.
proof fn lemma_diff_new_nothing(
    files: Seq<SnapshotFileModel>,
    known: Seq<OriginalFileModel>,
    folder: Seq<char>,
)
    requires
        forall|i: int|
            0 <= i < files.len() ==> (spec_find_original(known, (#[trigger] files[i]).filename)
                is Some || spec_new_entry(files[i], folder) is None),
    ensures
        spec_diff_new(files, known, folder).0 == Seq::<OriginalFileModel>::empty(),
        spec_diff_new(files, known, folder).1 == Seq::<ChangeModel>::empty(),
    decreases files.len(),
{
    if files.len() > 0 {
        let rest = files.drop_first();
        assert(forall|i: int| 0 <= i < rest.len() ==> rest[i] == files[i + 1]);
        lemma_diff_new_nothing(rest, known, folder);
    }
}

/// Law: with no filesystem change between two reloads — the same snapshot
/// observed twice, every file readable — the second reload returns an empty
/// change list and leaves the index unchanged.
pub proof fn lemma_reload_twice_unchanged(m: FolderSourceModel, snap: Seq<SnapshotFileModel>)
    requires
        m.wf(),
        unique_snapshot_names(snap),
        all_readable(snap),
    ensures
        spec_reload(spec_reload(m, snap).0, snap).1 == Seq::<ChangeModel>::empty(),
        spec_reload(spec_reload(m, snap).0, snap).0 == spec_reload(m, snap).0,
{
    let a = spec_diff_known(m.originals, snap);
    let b = spec_diff_new(snap, m.originals, m.folder);
    let m1 = spec_reload(m, snap).0;
    assert(m1.originals == a.0 + b.0);

    // every entry of the reloaded index carries the digest of the observed
    // bytes of the file bearing its name
    lemma_diff_known_kept_hash(m.originals, snap);
    lemma_diff_new_entries(snap, m.originals, m.folder);
    assert forall|k: int| 0 <= k < m1.originals.len() implies {
        let e = #[trigger] m1.originals[k];
        spec_snap_find(snap, e.filename) matches Some(FileReadingModel::Content(bb)) && e.hash
            == content_digest(bb)
    } by {
        if k < a.0.len() {
            assert(m1.originals[k] == a.0[k]);
        } else {
            assert(m1.originals[k] == b.0[k - a.0.len()]);
            let e = b.0[k - a.0.len()];
            let i = choose|i: int|
                0 <= i < snap.len() && e.filename == (#[trigger] snap[i]).filename && (
                snap[i].reading matches FileReadingModel::Content(bb) && e.hash == content_digest(
                    bb,
                ) && decoded_dimensions(bb) is Some);
            lemma_snap_find_unique(snap, i);
        }
    }

    // so the second first-pass reports nothing and keeps the index whole
    lemma_diff_known_no_changes(m1.originals, snap);

    // and the second second-pass finds every snapshot file either already
    // indexed or not adoptable
    assert forall|i: int|
        0 <= i < snap.len() implies (spec_find_original(
        m1.originals,
        (#[trigger] snap[i]).filename,
    ) is Some || spec_new_entry(snap[i], m.folder) is None) by {
        let name = snap[i].filename;
        lemma_find_concat(a.0, b.0, name);
        lemma_snap_find_unique(snap, i);
        if spec_find_original(m.originals, name) is Some {
            lemma_diff_known_kept_iff(m.originals, snap, name);
            assert(spec_find_original(m1.originals, name) is Some);
        } else {
            if spec_new_entry(snap[i], m.folder) is Some {
                lemma_diff_new_complete(snap, m.originals, m.folder, i);
                lemma_find_contains(b.0, name);
                assert(spec_find_original(m1.originals, name) is Some);
            }
        }
    }
    lemma_diff_new_nothing(snap, m1.originals, m1.folder);

    assert(spec_reload(m1, snap).1 =~= Seq::<ChangeModel>::empty());
    assert(spec_reload(m1, snap).0.originals =~= m1.originals);
    assert(spec_reload(m1, snap).0 == m1) by {
        assert(spec_reload(m1, snap).0.originals == m1.originals);
        assert(spec_reload(m1, snap).0.folder == m1.folder);
        assert(spec_reload(m1, snap).0.name == m1.name);
    }
}

/// Find the first observed file with the given name.
fn snap_find(snapshot: &FolderSnapshot, name: &String) -> (r: Option<usize>)
    ensures
        (match r {
            Some(i) => 0 <= i < snapshot@.len() && snapshot@[i as int].filename == name@
                && spec_snap_find(snapshot@, name@) == Some(snapshot@[i as int].reading),
            None => spec_snap_find(snapshot@, name@) is None,
        }),
{
    let mut i: usize = 0;
    proof {
        assert(snapshot@.skip(0) =~= snapshot@);
    }
    while i < snapshot.files.len()
        invariant
            i <= snapshot@.len(),
            snapshot@.len() == snapshot.files@.len(),
            spec_snap_find(snapshot@, name@) == spec_snap_find(snapshot@.skip(i as int), name@),
        decreases snapshot@.len() - i,
    {
        proof {
            assert(snapshot@.skip(i as int)[0] == snapshot@[i as int]);
            assert(snapshot@.skip(i as int).drop_first() =~= snapshot@.skip(i as int + 1));
        }
        if snapshot.files[i].filename.eq(name) {
            return Some(i);
        }
        i = i + 1;
    }
    proof {
        assert(snapshot@.skip(snapshot@.len() as int) =~= Seq::<SnapshotFileModel>::empty());
    }
    None
}

} // verus!
