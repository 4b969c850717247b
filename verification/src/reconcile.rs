//! The reconciliation engine: resolve a batch of observed changes against a
//! decision cache, mutating the background set.
//!
//! The engine is an explicit state object — a stack of pending changes plus
//! the cache — driven step by step. A step either applies the top change
//! under a cached decision, or suspends: for a policy decision when the
//! cache has none for the change's kind, or for an image reading when
//! applying needs the original's dimensions. The caller performs the outside
//! work and resumes with the answer; the engine tolerates being abandoned
//! and resumed later, and never applies a change twice.

use vstd::prelude::*;

use crate::background::{BackgroundModel, DesktopBackground, DesktopBackgroundFlags};
use crate::keys::{KeyModel, OriginalKey};
use crate::set::{
    BackgroundSet, BackgroundSetModel, spec_mark_missing, spec_mark_unavailable,
    spec_remove_matching, spec_update_matching,
};
use crate::sources::{
    ChangeKind, ChangeKindModel, ChangeModel, OriginalChange, OriginalFileModel, OriginalResult,
    spec_source_original,
};

verus! {

/// A policy decision about one change.
#[derive(Clone, Copy, Debug, PartialEq, Eq, Structural)]
pub enum ChangeResult {
    Accept,
    Reject,
}

/// Model of a decision cache: one slot per change kind. A slot holds the
/// decision and whether it is consumed by one use (`true`) or persists for
/// the rest of the batch (`false`).
pub ghost struct ResultCacheModel {
    pub new: Option<(ChangeResult, bool)>,
    pub altered: Option<(ChangeResult, bool)>,
    pub deleted: Option<(ChangeResult, bool)>,
    pub unavailable: Option<(ChangeResult, bool)>,
}

/// The cache slot a change kind selects.
pub open spec fn spec_slot(cache: ResultCacheModel, kind: ChangeKindModel) -> Option<
    (ChangeResult, bool),
> {
    match kind {
        ChangeKindModel::New => cache.new,
        ChangeKindModel::Altered => cache.altered,
        ChangeKindModel::Deleted => cache.deleted,
        ChangeKindModel::Unavailable(_) => cache.unavailable,
    }
}

/// The cache with the slot for `kind` replaced by `v`.
pub open spec fn spec_set_slot(
    cache: ResultCacheModel,
    kind: ChangeKindModel,
    v: Option<(ChangeResult, bool)>,
) -> ResultCacheModel {
    match kind {
        ChangeKindModel::New => ResultCacheModel { new: v, ..cache },
        ChangeKindModel::Altered => ResultCacheModel { altered: v, ..cache },
        ChangeKindModel::Deleted => ResultCacheModel { deleted: v, ..cache },
        ChangeKindModel::Unavailable(_) => ResultCacheModel { unavailable: v, ..cache },
    }
}

/// The decision `get` returns for `kind`, if any.
pub open spec fn spec_peek(cache: ResultCacheModel, kind: ChangeKindModel) -> Option<
    ChangeResult,
> {
    match spec_slot(cache, kind) {
        Some((result, _)) => Some(result),
        None => None,
    }
}

/// The cache after `get` for `kind`: a single-use decision is cleared, a
/// persistent one stays.
pub open spec fn spec_consume(cache: ResultCacheModel, kind: ChangeKindModel) -> ResultCacheModel {
    match spec_slot(cache, kind) {
        Some((result, true)) => spec_set_slot(cache, kind, None),
        _ => cache,
    }
}

/// The cache after `put`: an empty or single-use slot is overwritten; a
/// persistent decision is never displaced.
pub open spec fn spec_put(
    cache: ResultCacheModel,
    kind: ChangeKindModel,
    result: ChangeResult,
    once: bool,
) -> ResultCacheModel {
    match spec_slot(cache, kind) {
        Some((_, false)) => cache,
        _ => spec_set_slot(cache, kind, Some((result, once))),
    }
}

/// A cache of policy decisions, one slot per change kind, independent of the
/// specific key.
pub struct ResultCache {
    new: Option<(ChangeResult, bool)>,
    altered: Option<(ChangeResult, bool)>,
    deleted: Option<(ChangeResult, bool)>,
    unavailable: Option<(ChangeResult, bool)>,
}

impl View for ResultCache {
    type V = ResultCacheModel;

    closed spec fn view(&self) -> ResultCacheModel {
        ResultCacheModel {
            new: self.new,
            altered: self.altered,
            deleted: self.deleted,
            unavailable: self.unavailable,
        }
    }
}

impl ResultCache {
    /// An empty cache: every change of every kind will ask for a decision.
    pub fn new() -> (r: ResultCache)
        ensures
            r@ == (ResultCacheModel { new: None, altered: None, deleted: None, unavailable: None }),
    {
        ResultCache { new: None, altered: None, deleted: None, unavailable: None }
    }

    /// The slot a change kind selects.
    fn select(&mut self, kind: &ChangeKind) -> (slot: &mut Option<(ChangeResult, bool)>)
        ensures
            *slot == spec_slot(old(self)@, kind@),
            final(self)@ == spec_set_slot(old(self)@, kind@, *final(slot)),
    {
        match kind {
            ChangeKind::New => &mut self.new,
            ChangeKind::Altered => &mut self.altered,
            ChangeKind::Deleted => &mut self.deleted,
            ChangeKind::Unavailable(_) => &mut self.unavailable,
        }
    }

    /// The cached decision for this kind, without consuming it.
    pub fn peek(&self, kind: &ChangeKind) -> (r: Option<ChangeResult>)
        ensures
            r == spec_peek(self@, kind@),
    {
        let slot = match kind {
            ChangeKind::New => &self.new,
            ChangeKind::Altered => &self.altered,
            ChangeKind::Deleted => &self.deleted,
            ChangeKind::Unavailable(_) => &self.unavailable,
        };
        match slot {
            Some((result, _)) => Some(*result),
            None => None,
        }
    }

    /// Take the cached decision for this kind: a single-use decision is
    /// cleared by this call, a persistent one is returned again next time.
    pub fn get(&mut self, kind: &ChangeKind) -> (r: Option<ChangeResult>)
        ensures
            r == spec_peek(old(self)@, kind@),
            final(self)@ == spec_consume(old(self)@, kind@),
    {
        let slot = self.select(kind);
        match slot.take() {
            Some((result, false)) => {
                *slot = Some((result, false));
                Some(result)
            },
            Some((result, true)) => Some(result),
            None => None,
        }
    }

    /// Store a decision for this kind, marking whether it is consumed by one
    /// use (`once`) or persists for the rest of the batch. A persistent
    /// decision already in place is never displaced.
    pub fn put(&mut self, kind: &ChangeKind, result: ChangeResult, once: bool)
        ensures
            final(self)@ == spec_put(old(self)@, kind@, result, once),
    {
        let slot = self.select(kind);
        match slot {
            None => {
                *slot = Some((result, once));
            },
            Some((_, true)) => {
                *slot = Some((result, once));
            },
            Some((_, false)) => {},
        }
    }
}

/// The outcome of one attempt to read an original's image: its pixel
/// dimensions, or `None` when the read or decode failed.
#[derive(Clone, Copy)]
pub struct ImageReading {
    pub dims: Option<(u32, u32)>,
}

/// Why a batch had to be aborted: a key just produced by this engine's own
/// source failed to resolve, which breaks a programming invariant.
#[derive(Clone, Copy, Debug, PartialEq, Eq, Structural)]
pub enum ReconcileError {
    /// The source refused the key as belonging to another source kind.
    WrongSource,
    /// The source no longer knows the key's identity.
    NotFound,
}

/// What one step of the engine did, or what it needs to continue.
pub enum ReconcileStep {
    /// The batch is exhausted.
    Done,
    /// The top change's kind has no cached decision: supply one and resume.
    AwaitDecision,
    /// Applying the top change needs one reading of the original's image at
    /// this key: read it and resume.
    AwaitImage(OriginalKey),
    /// The top change was applied and popped; step again.
    Applied,
    /// The batch is aborted: surface an internal error. Nothing was applied
    /// by this step.
    Fatal(ReconcileError),
}

/// Whether applying a change needs the original resolved and its image read:
/// a discovery always constructs a record, and an accepted alteration
/// refreshes every matching record.
pub open spec fn spec_needs_image(kind: ChangeKindModel, result: ChangeResult) -> bool {
    kind is New || (kind is Altered && result == ChangeResult::Accept)
}

/// The record a `New` change adds: constructed from the original, and
/// excluded when the discovery was rejected — a rejected discovery is added
/// but hidden, never silently dropped.
pub open spec fn spec_new_record(
    source: int,
    key: KeyModel,
    original: OriginalFileModel,
    dims: Option<(u32, u32)>,
    result: ChangeResult,
) -> BackgroundModel {
    let base = BackgroundModel::spec_from_original(source, key, original, dims);
    BackgroundModel {
        flags: DesktopBackgroundFlags { excluded: result == ChangeResult::Reject, ..base.flags },
        ..base
    }
}

/// How applying one change transforms the set. Matching is by any relation
/// but `Distinct` for alterations and deletions (the inclusive policy), and
/// by `SameOriginal` for unavailability. When a needed lookup fails the set
/// is left unchanged (the step reports the failure instead).
pub open spec fn spec_apply(
    s: BackgroundSetModel,
    source: int,
    key: KeyModel,
    kind: ChangeKindModel,
    result: ChangeResult,
    dims: Option<(u32, u32)>,
) -> BackgroundSetModel {
    match kind {
        ChangeKindModel::New => match spec_source_original(s.sources[source].unwrap(), key) {
            OriginalResult::Original(o) => BackgroundSetModel {
                backgrounds: s.backgrounds.push(
                    Some(spec_new_record(source, key, o, dims, result)),
                ),
                ..s
            },
            OriginalResult::ContentMismatch(o) => BackgroundSetModel {
                backgrounds: s.backgrounds.push(
                    Some(spec_new_record(source, key, o, dims, result)),
                ),
                ..s
            },
            _ => s,
        },
        ChangeKindModel::Altered => if result == ChangeResult::Accept {
            match spec_source_original(s.sources[source].unwrap(), key) {
                OriginalResult::Original(o) => BackgroundSetModel {
                    backgrounds: s.backgrounds.map_values(
                        |b: Option<BackgroundModel>| spec_update_matching(b, key, o, dims),
                    ),
                    ..s
                },
                OriginalResult::ContentMismatch(o) => BackgroundSetModel {
                    backgrounds: s.backgrounds.map_values(
                        |b: Option<BackgroundModel>| spec_update_matching(b, key, o, dims),
                    ),
                    ..s
                },
                _ => s,
            }
        } else {
            BackgroundSetModel {
                backgrounds: s.backgrounds.map_values(
                    |b: Option<BackgroundModel>| spec_mark_missing(b, key),
                ),
                ..s
            }
        },
        ChangeKindModel::Deleted => if result == ChangeResult::Accept {
            BackgroundSetModel {
                backgrounds: s.backgrounds.map_values(
                    |b: Option<BackgroundModel>| spec_remove_matching(b, key),
                ),
                ..s
            }
        } else {
            BackgroundSetModel {
                backgrounds: s.backgrounds.map_values(
                    |b: Option<BackgroundModel>| spec_mark_missing(b, key),
                ),
                ..s
            }
        },
        ChangeKindModel::Unavailable(_) => BackgroundSetModel {
            backgrounds: s.backgrounds.map_values(
                |b: Option<BackgroundModel>| spec_mark_unavailable(b, key),
            ),
            ..s
        },
    }
}

/// Whether a needed lookup of `key` fails, and how.
pub open spec fn spec_lookup_error(
    s: BackgroundSetModel,
    source: int,
    key: KeyModel,
    kind: ChangeKindModel,
    result: ChangeResult,
) -> Option<ReconcileError> {
    if spec_needs_image(kind, result) {
        match spec_source_original(s.sources[source].unwrap(), key) {
            OriginalResult::WrongSource => Some(ReconcileError::WrongSource),
            OriginalResult::NotFound => Some(ReconcileError::NotFound),
            _ => None,
        }
    } else {
        None
    }
}

/// Model of the engine's state.
pub ghost struct ConfirmChangesModel {
    pub source: int,
    pub changes: Seq<ChangeModel>,
    pub cache: ResultCacheModel,
}

/// A suspended batch of changes from one source, being resolved against a
/// decision cache. The terminal state is an empty stack.
pub struct ConfirmChanges {
    source: usize,
    changes: Vec<OriginalChange>,
    result_cache: ResultCache,
}

impl View for ConfirmChanges {
    type V = ConfirmChangesModel;

    closed spec fn view(&self) -> ConfirmChangesModel {
        ConfirmChangesModel {
            source: self.source as int,
            changes: self.changes@.map_values(|c: OriginalChange| c@),
            cache: self.result_cache@,
        }
    }
}

impl ConfirmChanges {
    /// Begin resolving a batch of changes from the source at `source`.
    pub fn new(source: usize, changes: Vec<OriginalChange>, result_cache: ResultCache) -> (r:
        ConfirmChanges)
        ensures
            r@.source == source as int,
            r@.changes == changes@.map_values(|c: OriginalChange| c@),
            r@.cache == result_cache@,
    {
        ConfirmChanges { source, changes, result_cache }
    }

    /// The index of the source this batch came from.
    pub fn source(&self) -> (r: usize)
        ensures
            r as int == self@.source,
    {
        self.source
    }

    /// How many changes are still pending.
    pub fn pending_count(&self) -> (r: usize)
        ensures
            r == self@.changes.len(),
    {
        self.changes.len()
    }

    /// The change the next step will work on: the top of the stack.
    pub fn pending(&self) -> (r: Option<&OriginalChange>)
        ensures
            (match r {
                Some(c) => self@.changes.len() > 0 && c@ == self@.changes.last(),
                None => self@.changes.len() == 0,
            }),
    {
        if self.changes.len() == 0 {
            None
        } else {
            Some(&self.changes[self.changes.len() - 1])
        }
    }

    /// Supply the policy decision for the pending change and cache it:
    /// `once` decisions serve this change alone, persistent ones the whole
    /// batch.
    pub fn supply_decision(&mut self, result: ChangeResult, once: bool)
        requires
            old(self)@.changes.len() > 0,
        ensures
            final(self)@ == (ConfirmChangesModel {
                cache: spec_put(
                    old(self)@.cache,
                    old(self)@.changes.last().kind,
                    result,
                    once,
                ),
                ..old(self)@
            }),
    {
        let idx = self.changes.len() - 1;
        let kind = &self.changes[idx].kind;
        self.result_cache.put(kind, result, once);
    }

    /// Run one step of the reconciliation: apply the top change if its
    /// decision is cached and the outside work it needs was supplied;
    /// otherwise suspend and say what is needed. A change is popped only
    /// when it was fully applied, so an abandoned engine can always be
    /// resumed, and no change is ever applied twice.
    pub fn step(&mut self, set: &mut BackgroundSet, reading: Option<ImageReading>) -> (r:
        ReconcileStep)
        requires
            old(set)@.wf(),
            0 <= old(self)@.source < old(set)@.sources.len(),
            old(set)@.sources[old(self)@.source] is Some,
        ensures
            final(self)@.source == old(self)@.source,
            final(set)@.wf(),
            (match r {
                ReconcileStep::Done => old(self)@.changes.len() == 0 && final(self)@ == old(self)@
                    && final(set)@ == old(set)@,
                ReconcileStep::AwaitDecision => old(self)@.changes.len() > 0 && spec_peek(
                    old(self)@.cache,
                    old(self)@.changes.last().kind,
                ) is None && final(self)@ == old(self)@ && final(set)@ == old(set)@,
                ReconcileStep::AwaitImage(k) => old(self)@.changes.len() > 0 && {
                    let top = old(self)@.changes.last();
                    &&& spec_peek(old(self)@.cache, top.kind) matches Some(res)
                        && spec_needs_image(top.kind, res)
                    &&& reading is None
                    &&& k@ == top.key
                    &&& final(self)@ == old(self)@
                    &&& final(set)@ == old(set)@
                },
                ReconcileStep::Fatal(e) => old(self)@.changes.len() > 0 && {
                    let top = old(self)@.changes.last();
                    &&& spec_peek(old(self)@.cache, top.kind) matches Some(res)
                        && spec_lookup_error(old(set)@, old(self)@.source, top.key, top.kind, res)
                        == Some(e)
                    &&& final(self)@ == old(self)@
                    &&& final(set)@ == old(set)@
                },
                ReconcileStep::Applied => old(self)@.changes.len() > 0 && {
                    let top = old(self)@.changes.last();
                    &&& spec_peek(old(self)@.cache, top.kind) matches Some(res) && {
                        let dims = match reading {
                            Some(rd) => rd.dims,
                            None => None,
                        };
                        &&& spec_needs_image(top.kind, res) ==> reading is Some
                        &&& spec_lookup_error(
                            old(set)@,
                            old(self)@.source,
                            top.key,
                            top.kind,
                            res,
                        ) is None
                        &&& final(self)@.changes == old(self)@.changes.drop_last()
                        &&& final(self)@.cache == spec_consume(old(self)@.cache, top.kind)
                        &&& final(set)@ == spec_apply(
                            old(set)@,
                            old(self)@.source,
                            top.key,
                            top.kind,
                            res,
                            dims,
                        )
                    }
                },
            }),
    {
        if self.changes.len() == 0 {
            return ReconcileStep::Done;
        }
        let idx = self.changes.len() - 1;
        let result = match self.result_cache.peek(&self.changes[idx].kind) {
            None => {
                return ReconcileStep::AwaitDecision;
            },
            Some(r) => r,
        };
        proof {
            assert(self@.changes.last() == self.changes@[idx as int]@);
        }
        let needs = match &self.changes[idx].kind {
            ChangeKind::New => true,
            ChangeKind::Altered => matches!(result, ChangeResult::Accept),
            _ => false,
        };
        if needs && reading.is_none() {
            return ReconcileStep::AwaitImage(self.changes[idx].key.clone());
        }
        let dims: Option<(u32, u32)> = match reading {
            Some(rd) => rd.dims,
            None => None,
        };
        let key = self.changes[idx].key.clone();
        if needs {
            let original = match set.source_original(self.source, &key) {
                OriginalResult::Original(o) => o,
                OriginalResult::ContentMismatch(o) => o,
                OriginalResult::WrongSource => {
                    return ReconcileStep::Fatal(ReconcileError::WrongSource);
                },
                OriginalResult::NotFound => {
                    return ReconcileStep::Fatal(ReconcileError::NotFound);
                },
            };
            let is_new = matches!(&self.changes[idx].kind, ChangeKind::New);
            if is_new {
                let mut record = DesktopBackground::from_original(
                    self.source,
                    key,
                    &original,
                    dims,
                );
                if matches!(result, ChangeResult::Reject) {
                    record.flags.excluded = true;
                }
                set.add_background(record);
            } else {
                set.update_matching_records(&key, &original, dims);
            }
        } else {
            match (&self.changes[idx].kind, result) {
                (ChangeKind::Deleted, ChangeResult::Accept) => {
                    set.remove_matching_records(&key);
                },
                (ChangeKind::Deleted, ChangeResult::Reject) => {
                    set.mark_matching_missing(&key);
                },
                (ChangeKind::Altered, ChangeResult::Reject) => {
                    set.mark_matching_missing(&key);
                },
                (ChangeKind::Unavailable(_), _) => {
                    set.mark_matching_unavailable(&key);
                },
                _ => {
                    proof {
                        assert(false);
                    }
                },
            }
        }
        let popped = self.changes.pop();
        match popped {
            Some(change) => {
                let _ = self.result_cache.get(&change.kind);
            },
            None => {
                proof {
                    assert(false);
                }
            },
        }
        proof {
            assert(final(self)@.changes =~= old(self)@.changes.drop_last());
        }
        ReconcileStep::Applied
    }
}

} // verus!
