//! The records the store holds and the reports that maintenance returns.

use vstd::prelude::*;

verus! {

/// Milliseconds in one day; every timestamp of the library is in Unix milliseconds.
pub const DAY_MS: i64 = 86_400_000;

/// The view of an optional string.
pub open spec fn opt_str_view(o: Option<String>) -> Option<Seq<char>> {
    match o {
        Some(s) => Some(s@),
        None => None,
    }
}

/// The views of a list of strings.
pub open spec fn strs_view(v: Seq<String>) -> Seq<Seq<char>> {
    v.map_values(|s: String| s@)
}

/// Clones an optional string, keeping its view.
pub fn clone_opt_string(o: &Option<String>) -> (r: Option<String>)
    ensures
        opt_str_view(r) == opt_str_view(*o),
{
    match o {
        Some(s) => Some(s.clone()),
        None => None,
    }
}

/// Clones a list of strings, keeping its view.
pub fn clone_strings(v: &Vec<String>) -> (r: Vec<String>)
    ensures
        strs_view(r@) == strs_view(v@),
{
    let mut r: Vec<String> = Vec::new();
    for i in 0..v.len()
        invariant
            r@.len() == i,
            forall|k: int| 0 <= k < i ==> (#[trigger] r@[k])@ == v@[k]@,
    {
        let c = v[i].clone();
        r.push(c);
    }
    assert(strs_view(r@) =~= strs_view(v@));
    r
}

/// Clones a vector of `u32`.
pub fn clone_words(v: &Vec<u32>) -> (r: Vec<u32>)
    ensures
        r@ == v@,
{
    let r = v.clone();
    assert(r@ =~= v@);
    r
}

/// One stored memory. The embedding holds the bit patterns of its `f32` components;
/// `importance_milli` is the importance in thousandths (0..=1000).
#[derive(Debug)]
pub struct Memory {
    pub id: String,
    pub content: String,
    pub embedding: Vec<u32>,
    pub tags: Vec<String>,
    pub metadata: String,
    pub created_at: i64,
    pub updated_at: i64,
    pub namespace: String,
    pub access_count: u64,
    pub last_accessed: Option<i64>,
    pub deprecated: bool,
    pub deprecate_reason: Option<String>,
    pub valid_from: Option<i64>,
    pub valid_until: Option<i64>,
    pub memory_type: String,
    pub importance_milli: u32,
    pub pinned: bool,
    pub content_type: String,
    pub slug: Option<String>,
    pub source: Option<String>,
    pub source_type: String,
}

/// The mathematical value of a [`Memory`].
pub struct MemoryView {
    pub id: Seq<char>,
    pub content: Seq<char>,
    pub embedding: Seq<u32>,
    pub tags: Seq<Seq<char>>,
    pub metadata: Seq<char>,
    pub created_at: i64,
    pub updated_at: i64,
    pub namespace: Seq<char>,
    pub access_count: u64,
    pub last_accessed: Option<i64>,
    pub deprecated: bool,
    pub deprecate_reason: Option<Seq<char>>,
    pub valid_from: Option<i64>,
    pub valid_until: Option<i64>,
    pub memory_type: Seq<char>,
    pub importance_milli: u32,
    pub pinned: bool,
    pub content_type: Seq<char>,
    pub slug: Option<Seq<char>>,
    pub source: Option<Seq<char>>,
    pub source_type: Seq<char>,
}

impl View for Memory {
    type V = MemoryView;

    open spec fn view(&self) -> MemoryView {
        MemoryView {
            id: self.id@,
            content: self.content@,
            embedding: self.embedding@,
            tags: strs_view(self.tags@),
            metadata: self.metadata@,
            created_at: self.created_at,
            updated_at: self.updated_at,
            namespace: self.namespace@,
            access_count: self.access_count,
            last_accessed: self.last_accessed,
            deprecated: self.deprecated,
            deprecate_reason: opt_str_view(self.deprecate_reason),
            valid_from: self.valid_from,
            valid_until: self.valid_until,
            memory_type: self.memory_type@,
            importance_milli: self.importance_milli,
            pinned: self.pinned,
            content_type: self.content_type@,
            slug: opt_str_view(self.slug),
            source: opt_str_view(self.source),
            source_type: self.source_type@,
        }
    }
}

impl Memory {
    /// A copy of this memory with the same value.
    pub fn duplicate(&self) -> (r: Memory)
        ensures
            r@ == self@,
    {
        Memory {
            id: self.id.clone(),
            content: self.content.clone(),
            embedding: clone_words(&self.embedding),
            tags: clone_strings(&self.tags),
            metadata: self.metadata.clone(),
            created_at: self.created_at,
            updated_at: self.updated_at,
            namespace: self.namespace.clone(),
            access_count: self.access_count,
            last_accessed: self.last_accessed,
            deprecated: self.deprecated,
            deprecate_reason: clone_opt_string(&self.deprecate_reason),
            valid_from: self.valid_from,
            valid_until: self.valid_until,
            memory_type: self.memory_type.clone(),
            importance_milli: self.importance_milli,
            pinned: self.pinned,
            content_type: self.content_type.clone(),
            slug: clone_opt_string(&self.slug),
            source: clone_opt_string(&self.source),
            source_type: self.source_type.clone(),
        }
    }
}

/// The stored embedding of one chunk of a document.
#[derive(Debug)]
pub struct DocChunk {
    pub id: String,
    pub embedding: Vec<u32>,
}

/// The mathematical value of a [`DocChunk`].
pub struct ChunkView {
    pub id: Seq<char>,
    pub embedding: Seq<u32>,
}

impl View for DocChunk {
    type V = ChunkView;

    open spec fn view(&self) -> ChunkView {
        ChunkView { id: self.id@, embedding: self.embedding@ }
    }
}

/// Errors of the library.
#[derive(Debug)]
pub enum Error {
    /// The input was refused; the text says why.
    Validation(String),
    /// A memory with this id is already stored.
    DuplicateId(String),
    /// No memory with this id is stored.
    NotFound(String),
}

} // verus!
