//! Content keys: identifiers for "this original, as of this content".
//!
//! A key carries the identity of an original within its source together with a
//! digest of the original's content. Two keys either denote the same original
//! with the same content, the same original with different content, or
//! distinct originals.

use vstd::prelude::*;

verus! {

/// Number of bytes in a content digest.
pub const HASH_SIZE: usize = 32;

/// How two content keys relate to one another.
#[derive(Clone, Copy, Debug, PartialEq, Eq, Structural)]
pub enum KeyRelation {
    /// Identical identity and identical content digest.
    SameOriginal,
    /// Same identity, but the content digests differ.
    ContentMismatch,
    /// Different identities.
    Distinct,
}

/// Relation of two (identity, digest) pairs.
pub open spec fn spec_key_relation(
    name1: Seq<char>,
    hash1: Seq<u8>,
    name2: Seq<char>,
    hash2: Seq<u8>,
) -> KeyRelation {
    if name1 != name2 {
        KeyRelation::Distinct
    } else if hash1 == hash2 {
        KeyRelation::SameOriginal
    } else {
        KeyRelation::ContentMismatch
    }
}

/// Types that can be compared as content keys.
pub trait CompareKey {
    /// Mathematical meaning of `compare`.
    spec fn spec_compare(&self, other: &Self) -> KeyRelation;

    /// Relate two keys.
    fn compare(&self, other: &Self) -> (r: KeyRelation)
        ensures
            r == self.spec_compare(other),
    ;
}

/// Key of an original inside a folder source: the file's name plus a digest
/// of the file's bytes. Identity is the filename; freshness is the digest.
pub struct FileKey {
    pub filename: String,
    pub hash: Vec<u8>,
}

impl FileKey {
    /// A well-formed key holds a full-width digest.
    pub open spec fn wf(&self) -> bool {
        self.hash@.len() == HASH_SIZE
    }
}

impl Clone for FileKey {
    fn clone(&self) -> (r: Self)
        ensures
            r.filename@ == self.filename@,
            r.hash@ == self.hash@,
    {
        FileKey { filename: self.filename.clone(), hash: clone_bytes(&self.hash) }
    }
}

impl CompareKey for FileKey {
    open spec fn spec_compare(&self, other: &Self) -> KeyRelation {
        spec_key_relation(self.filename@, self.hash@, other.filename@, other.hash@)
    }

    fn compare(&self, other: &Self) -> (r: KeyRelation) {
        if !self.filename.eq(&other.filename) {
            KeyRelation::Distinct
        } else if bytes_eq(&self.hash, &other.hash) {
            KeyRelation::SameOriginal
        } else {
            KeyRelation::ContentMismatch
        }
    }
}

/// Transport-neutral form of a key: what persistence stores and what crosses
/// the type-erased source boundary. A source reconstructs a live key from it,
/// and rejects a value that does not fit its own key schema.
pub struct KeyData {
    pub filename: String,
    pub hash: Vec<u8>,
}

impl Clone for KeyData {
    fn clone(&self) -> (r: Self)
        ensures
            r.filename@ == self.filename@,
            r.hash@ == self.hash@,
    {
        KeyData { filename: self.filename.clone(), hash: clone_bytes(&self.hash) }
    }
}

/// Mathematical model of a content key: which source schema it belongs to,
/// plus its identity and content digest.
pub ghost enum KeyModel {
    /// A key of a folder source.
    Folder { filename: Seq<char>, hash: Seq<u8> },
    /// Raw key data that failed to deserialize against its owning source.
    Opaque { filename: Seq<char>, hash: Seq<u8> },
}

impl KeyModel {
    /// How two erased keys relate: keys of different schemas, and keys kept in
    /// their raw transport form, are always `Distinct`.
    pub open spec fn relation(self, other: KeyModel) -> KeyRelation {
        match (self, other) {
            (
                KeyModel::Folder { filename: f1, hash: h1 },
                KeyModel::Folder { filename: f2, hash: h2 },
            ) => spec_key_relation(f1, h1, f2, h2),
            _ => KeyRelation::Distinct,
        }
    }

    /// Meaning of `OriginalKey::hash_code`: a function of identity and digest
    /// alone, so that keys relating as `SameOriginal` share a code.
    pub open spec fn hash_code(self) -> u64 {
        match self {
            KeyModel::Folder { filename, hash } => spec_bytes_code(hash),
            KeyModel::Opaque { .. } => 0u64,
        }
    }

    pub open spec fn wf(self) -> bool {
        self matches KeyModel::Folder { hash, .. } ==> hash.len() == HASH_SIZE
    }
}

/// A content key, erased over the concrete source kind that produced it.
///
/// A key whose raw data did not match the schema of its owning source is kept
/// in its transport form: such a key relates as `Distinct` to every key, and a
/// source refuses to look it up.
pub enum OriginalKey {
    /// A key of a folder source.
    Folder(FileKey),
    /// Raw key data that failed to deserialize against its owning source.
    Opaque(KeyData),
}

impl View for OriginalKey {
    type V = KeyModel;

    open spec fn view(&self) -> KeyModel {
        match self {
            OriginalKey::Folder(k) => KeyModel::Folder { filename: k.filename@, hash: k.hash@ },
            OriginalKey::Opaque(d) => KeyModel::Opaque { filename: d.filename@, hash: d.hash@ },
        }
    }
}

impl OriginalKey {
    pub open spec fn wf(&self) -> bool {
        self@.wf()
    }

    /// Hash code consistent with `SameOriginal` equality.
    pub fn hash_code(&self) -> (r: u64)
        ensures
            r == self@.hash_code(),
    {
        match self {
            OriginalKey::Folder(k) => bytes_code(&k.hash),
            OriginalKey::Opaque(_) => 0u64,
        }
    }

    /// The transport form of this key, for persistence.
    pub fn to_key_data(&self) -> (r: KeyData)
        ensures
            r.filename@ == self.spec_key_data().0,
            r.hash@ == self.spec_key_data().1,
    {
        match self {
            OriginalKey::Folder(k) => KeyData {
                filename: k.filename.clone(),
                hash: clone_bytes(&k.hash),
            },
            OriginalKey::Opaque(d) => d.clone(),
        }
    }

    /// Identity and digest carried in the transport form.
    pub open spec fn spec_key_data(&self) -> (Seq<char>, Seq<u8>) {
        key_model_data(self@)
    }
}

impl Clone for OriginalKey {
    fn clone(&self) -> (r: Self)
        ensures
            r@ == self@,
    {
        match self {
            OriginalKey::Folder(k) => OriginalKey::Folder(k.clone()),
            OriginalKey::Opaque(d) => OriginalKey::Opaque(d.clone()),
        }
    }
}

impl CompareKey for OriginalKey {
    open spec fn spec_compare(&self, other: &Self) -> KeyRelation {
        self@.relation(other@)
    }

    fn compare(&self, other: &Self) -> (r: KeyRelation) {
        match (self, other) {
            (OriginalKey::Folder(k1), OriginalKey::Folder(k2)) => k1.compare(k2),
            _ => KeyRelation::Distinct,
        }
    }
}

/// The identity and digest a key carries, in its transport form.
pub open spec fn key_model_data(k: KeyModel) -> (Seq<char>, Seq<u8>) {
    match k {
        KeyModel::Folder { filename, hash } => (filename, hash),
        KeyModel::Opaque { filename, hash } => (filename, hash),
    }
}

/// Law: keys that compare as the same original have equal hash codes.
pub proof fn lemma_same_original_equal_hash_code(k1: KeyModel, k2: KeyModel)
    requires
        k1.relation(k2) == KeyRelation::SameOriginal,
    ensures
        k1.hash_code() == k2.hash_code(),
{
}

/// Fold a byte sequence into a 64-bit code.
pub open spec fn spec_bytes_code(s: Seq<u8>) -> u64
    decreases s.len(),
{
    if s.len() == 0 {
        0x517cc1b727220a95u64
    } else {
        let acc = spec_bytes_code(s.drop_last());
        ((acc << 8) ^ (acc >> 56) ^ (s.last() as u64)) as u64
    }
}

/// Compute the 64-bit code of a byte vector.
pub fn bytes_code(bytes: &Vec<u8>) -> (r: u64)
    ensures
        r == spec_bytes_code(bytes@),
{
    let mut acc: u64 = 0x517cc1b727220a95u64;
    let mut i: usize = 0;
    while i < bytes.len()
        invariant
            i <= bytes@.len(),
            acc == spec_bytes_code(bytes@.take(i as int)),
        decreases bytes@.len() - i,
    {
        let b = bytes[i];
        acc = (acc << 8u64) ^ (acc >> 56u64) ^ (b as u64);
        i = i + 1;
        proof {
            assert(bytes@.take(i as int).drop_last() =~= bytes@.take(i - 1));
            assert(bytes@.take(i as int).last() == bytes@[i - 1]);
        }
    }
    proof {
        assert(bytes@.take(bytes@.len() as int) =~= bytes@);
    }
    acc
}

/// Compare two byte vectors for element-wise equality.
pub fn bytes_eq(a: &Vec<u8>, b: &Vec<u8>) -> (r: bool)
    ensures
        r == (a@ == b@),
{
    if a.len() != b.len() {
        return false;
    }
    let mut i: usize = 0;
    while i < a.len()
        invariant
            i <= a@.len(),
            a@.len() == b@.len(),
            forall|j: int| 0 <= j < i ==> a@[j] == b@[j],
        decreases a@.len() - i,
    {
        if a[i] != b[i] {
            return false;
        }
        i = i + 1;
    }
    proof {
        assert(a@ =~= b@);
    }
    true
}

/// Copy a byte vector.
pub fn clone_bytes(bytes: &Vec<u8>) -> (r: Vec<u8>)
    ensures
        r@ == bytes@,
{
    let mut out: Vec<u8> = Vec::new();
    let mut i: usize = 0;
    while i < bytes.len()
        invariant
            i <= bytes@.len(),
            out@ == bytes@.take(i as int),
        decreases bytes@.len() - i,
    {
        out.push(bytes[i]);
        i = i + 1;
        proof {
            assert(bytes@.take(i as int) =~= bytes@.take(i - 1).push(bytes@[i - 1]));
        }
    }
    proof {
        assert(bytes@.take(bytes@.len() as int) =~= bytes@);
    }
    out
}

} // verus!
