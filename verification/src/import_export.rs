//! Export of memories and the decisions of an import: the input's format, and what each
//! entry becomes.

use vstd::prelude::*;

use crate::clock::{is_v4_uuid_text, new_memory_id, now_millis};
use crate::engine::Uteke;
use crate::index::{with_entry, without_key};
use crate::reports::ImportResult;
use crate::store::{ns_view, Scope};
use crate::text::{chars_of, trim_text, trimmed};
use crate::types::{clone_opt_string, clone_strings, clone_words, opt_str_view, strs_view, Error, Memory, MemoryView};

verus! {

/// One exported (or imported) memory. Exports never carry the embedding; an import
/// entry may carry a vector (bit patterns of its `f32` components) to use as is.
#[derive(Debug)]
pub struct ExportEntry {
    pub content: String,
    pub tags: Vec<String>,
    pub metadata: String,
    pub created_at: i64,
    pub source: Option<String>,
    pub embedding: Option<Vec<u32>>,
}

/// The view of an optional vector.
pub open spec fn opt_words(o: Option<Vec<u32>>) -> Option<Seq<u32>> {
    match o {
        Some(v) => Some(v@),
        None => None,
    }
}

/// The mathematical value of an [`ExportEntry`].
pub struct EntryView {
    pub content: Seq<char>,
    pub tags: Seq<Seq<char>>,
    pub metadata: Seq<char>,
    pub created_at: i64,
    pub source: Option<Seq<char>>,
    pub embedding: Option<Seq<u32>>,
}

impl View for ExportEntry {
    type V = EntryView;

    open spec fn view(&self) -> EntryView {
        EntryView {
            content: self.content@,
            tags: strs_view(self.tags@),
            metadata: self.metadata@,
            created_at: self.created_at,
            source: opt_str_view(self.source),
            embedding: match self.embedding {
                Some(e) => Some(e@),
                None => None,
            },
        }
    }
}

/// The export entry of a memory.
pub open spec fn export_view(m: MemoryView) -> EntryView {
    EntryView {
        content: m.content,
        tags: m.tags,
        metadata: m.metadata,
        created_at: m.created_at,
        source: m.source,
        embedding: None,
    }
}

/// `es` is the export of a namespace: the entries of its live memories, in store order.
pub open spec fn exported(u: Uteke, ns: Option<Seq<char>>, es: Seq<EntryView>) -> bool {
    es == u.store@.scoped(ns, Scope::Live).map_values(|m: MemoryView| export_view(m))
}

/// How an import input is read.
#[derive(Debug, Clone, Copy, PartialEq, Eq)]
pub enum ImportFormat {
    /// A JSON array of entries.
    JsonArray,
    /// One JSON object, or JSON Lines when it is not one object.
    JsonObjectOrLines,
    /// One JSON object per line.
    JsonLines,
}

/// The format of an import input, by the first character of its trimmed text.
pub open spec fn format_of(input: Seq<char>) -> ImportFormat {
    let t = trimmed(input);
    if t.len() > 0 && t[0] == '[' {
        ImportFormat::JsonArray
    } else if t.len() > 0 && t[0] == '{' {
        ImportFormat::JsonObjectOrLines
    } else {
        ImportFormat::JsonLines
    }
}

/// How the text of an import is read.
#[derive(Debug, Clone, Copy, PartialEq, Eq)]
pub enum ParsePlan {
    /// As one JSON array of entries.
    Array,
    /// As one JSON object.
    Object,
    /// As JSON Lines, one object per line.
    Lines,
}

/// The reading an import uses: an array as such; for text that starts with `{`, one
/// object when it parses as one and JSON Lines otherwise; JSON Lines for the rest.
pub open spec fn plan_of(format: ImportFormat, parses_as_object: bool) -> ParsePlan {
    match format {
        ImportFormat::JsonArray => ParsePlan::Array,
        ImportFormat::JsonObjectOrLines => if parses_as_object {
            ParsePlan::Object
        } else {
            ParsePlan::Lines
        },
        ImportFormat::JsonLines => ParsePlan::Lines,
    }
}

/// How often the text of an entry is given to the embedder before the entry is skipped.
pub const EMBED_ATTEMPTS: u32 = 3;

/// The wait after the first failed embedding, in milliseconds; it doubles after each
/// further failure.
pub const FIRST_RETRY_DELAY_MS: u64 = 200;

/// What follows one embedding attempt.
#[derive(Debug, Clone, Copy, PartialEq, Eq)]
pub enum EmbedStep {
    /// The attempt gave a vector: use it.
    Use,
    /// The attempt failed: wait `millis`, then try again when `retry` is set and skip
    /// the entry otherwise.
    Wait { millis: u64, retry: bool },
}

/// `base` doubled `n` times.
pub open spec fn doubled(base: int, n: nat) -> int
    decreases n,
{
    if n == 0 {
        base
    } else {
        2 * doubled(base, (n - 1) as nat)
    }
}

/// What follows attempt number `attempt` (counted from 0): the vector is used when it
/// succeeded; otherwise the import waits the doubled delay and tries again until
/// [`EMBED_ATTEMPTS`] attempts were made.
pub open spec fn embed_step_of(attempt: u32, succeeded: bool) -> EmbedStep {
    if succeeded {
        EmbedStep::Use
    } else {
        EmbedStep::Wait {
            millis: doubled(FIRST_RETRY_DELAY_MS as int, attempt as nat) as u64,
            retry: attempt + 1 < EMBED_ATTEMPTS,
        }
    }
}

/// What became of one import entry.
#[derive(Debug, Clone, Copy, PartialEq, Eq)]
pub enum EntryOutcome {
    /// Stored, and its vector set in the index.
    Imported,
    /// Skipped: its content is empty.
    SkippedEmpty,
    /// Skipped: it has no vector and none could be computed.
    SkippedNoVector,
    /// Skipped: a near duplicate is already stored.
    SkippedDuplicate,
    /// Skipped: the store refused it; its vector was taken out of the index again.
    SkippedRejected,
}

/// The namespace an import writes to.
pub open spec fn import_namespace(ns: Option<Seq<char>>) -> Seq<char> {
    match ns {
        Some(n) => n,
        None => "default"@,
    }
}

/// The vector an entry is stored with: its own, else the computed one.
pub open spec fn entry_vector(e: EntryView, computed: Option<Seq<u32>>) -> Option<Seq<u32>> {
    match e.embedding {
        Some(v) => Some(v),
        None => computed,
    }
}

/// The memory an import entry becomes.
pub open spec fn imported_memory(e: EntryView, v: Seq<u32>, id: Seq<char>, now: i64, ns: Option<Seq<char>>) -> MemoryView {
    MemoryView {
        id: id,
        content: e.content,
        embedding: v,
        tags: e.tags,
        metadata: e.metadata,
        created_at: e.created_at,
        updated_at: now,
        namespace: import_namespace(ns),
        access_count: 0,
        last_accessed: None,
        deprecated: false,
        deprecate_reason: None,
        valid_from: Some(e.created_at),
        valid_until: None,
        memory_type: "fact"@,
        importance_milli: 500,
        pinned: false,
        content_type: "text"@,
        slug: None,
        source: Some(
            "import:"@ + match e.source {
                Some(s) => s,
                None => Seq::empty(),
            },
        ),
        source_type: "import"@,
    }
}

/// What importing one entry did: `before`/`after` are the engine and `counted`/`tally`
/// the counts before and after it; `v` is the entry's own vector, else `computed`.
pub open spec fn import_done(
    before: Uteke,
    after: Uteke,
    counted: ImportResult,
    tally: ImportResult,
    e: EntryView,
    computed: Option<Seq<u32>>,
    duplicate: bool,
    ns: Option<Seq<char>>,
    id: Seq<char>,
    now: i64,
    outcome: EntryOutcome,
) -> bool {
    let v = entry_vector(e, computed);
    &&& after.store@.chunks == before.store@.chunks
    &&& after.recall_cache@ == before.recall_cache@
    &&& after.tier_config == before.tier_config
    &&& after.lifecycle_config == before.lifecycle_config
    &&& outcome == if e.content.len() == 0 {
        EntryOutcome::SkippedEmpty
    } else if v is None {
        EntryOutcome::SkippedNoVector
    } else if duplicate {
        EntryOutcome::SkippedDuplicate
    } else if before.store@.has_id(id) {
        EntryOutcome::SkippedRejected
    } else {
        EntryOutcome::Imported
    }
    &&& outcome == EntryOutcome::Imported ==> tally.imported == counted.imported + 1 && tally.skipped == counted.skipped
        && after.store@.memories == before.store@.memories.push(imported_memory(e, v->Some_0, id, now, ns))
        && after.index@.entries == with_entry(before.index@.entries, id, v->Some_0) && after.index@.dirty
        && after.index@.persisted == before.index@.persisted
    &&& outcome == EntryOutcome::SkippedRejected ==> tally.imported == counted.imported && tally.skipped == counted.skipped + 1
        && after.store@ == before.store@
        && after.index@.entries == without_key(with_entry(before.index@.entries, id, v->Some_0), id)
        && after.index@.dirty && after.index@.persisted == before.index@.persisted
    &&& outcome != EntryOutcome::Imported && outcome != EntryOutcome::SkippedRejected ==> tally.imported
        == counted.imported && tally.skipped == counted.skipped + 1 && after.store@ == before.store@ && after.index@
        == before.index@
}

/// The format of an import input: a JSON array when its trimmed text starts with `[`,
/// one JSON object (or JSON Lines) when it starts with `{`, JSON Lines otherwise.
pub fn detect_format(input: &str) -> (f: ImportFormat)
    ensures
        f == format_of(input@),
{
    let t = chars_of(trim_text(input).as_str());
    if t.len() > 0 && t[0] == '[' {
        ImportFormat::JsonArray
    } else if t.len() > 0 && t[0] == '{' {
        ImportFormat::JsonObjectOrLines
    } else {
        ImportFormat::JsonLines
    }
}

/// The reading an import uses, given its format and whether its trimmed text parses as
/// one JSON object.
pub fn parse_plan(format: ImportFormat, parses_as_object: bool) -> (p: ParsePlan)
    ensures
        p == plan_of(format, parses_as_object),
{
    match format {
        ImportFormat::JsonArray => ParsePlan::Array,
        ImportFormat::JsonObjectOrLines => if parses_as_object {
            ParsePlan::Object
        } else {
            ParsePlan::Lines
        },
        ImportFormat::JsonLines => ParsePlan::Lines,
    }
}

/// What follows embedding attempt number `attempt` (counted from 0) of an entry.
pub fn embed_step(attempt: u32, succeeded: bool) -> (step: EmbedStep)
    requires
        attempt < EMBED_ATTEMPTS,
    ensures
        step == embed_step_of(attempt, succeeded),
{
    if succeeded {
        return EmbedStep::Use;
    }
    let mut millis: u64 = FIRST_RETRY_DELAY_MS;
    let mut i: u32 = 0;
    while i < attempt
        invariant
            i <= attempt < EMBED_ATTEMPTS,
            millis == doubled(FIRST_RETRY_DELAY_MS as int, i as nat),
            i == 0 ==> millis == 200,
            i == 1 ==> millis == 400,
            i == 2 ==> millis == 800,
        decreases attempt - i,
    {
        millis = millis * 2;
        i = i + 1;
    }
    EmbedStep::Wait { millis, retry: attempt + 1 < EMBED_ATTEMPTS }
}

/// The entry needs a computed vector: it has content and carries none.
pub fn entry_needs_embedding(entry: &ExportEntry) -> (b: bool)
    ensures
        b == (entry@.content.len() > 0 && entry@.embedding is None),
{
    !entry.content.as_str().is_empty() && entry.embedding.is_none()
}

/// Some entry carries no vector, so an embedder is needed.
pub fn needs_embedder(entries: &Vec<ExportEntry>) -> (b: bool)
    ensures
        b == exists|i: int| 0 <= i < entries@.len() && (#[trigger] entries@[i])@.embedding is None,
{
    for i in 0..entries.len()
        invariant
            forall|k: int| 0 <= k < i ==> (#[trigger] entries@[k])@.embedding is Some,
    {
        if entries[i].embedding.is_none() {
            return true;
        }
    }
    false
}

impl Uteke {
    /// The export entries of the live memories of the namespace, in store order, without
    /// their vectors.
    pub fn export(&self, namespace: Option<&str>) -> (r: Result<Vec<ExportEntry>, Error>)
        ensures
            r matches Ok(v) && exported(*self, ns_view(namespace), v@.map_values(|e: ExportEntry| e@)),
    {
        let memories = self.store.load_all(namespace);
        let ghost live = self.store@.scoped(ns_view(namespace), Scope::Live);
        let mut entries: Vec<ExportEntry> = Vec::new();
        for i in 0..memories.len()
            invariant
                memories@.map_values(|m: Memory| m@) == live,
                entries@.len() == i,
                forall|k: int| 0 <= k < i ==> (#[trigger] entries@[k])@ == export_view(live[k]),
        {
            let m = &memories[i];
            assert(m@ == live[i as int]);
            entries.push(
                ExportEntry {
                    content: m.content.clone(),
                    tags: clone_strings(&m.tags),
                    metadata: m.metadata.clone(),
                    created_at: m.created_at,
                    source: clone_opt_string(&m.source),
                    embedding: None,
                },
            );
        }
        assert(entries@.map_values(|e: ExportEntry| e@) =~= live.map_values(|m: MemoryView| export_view(m)));
        Ok(entries)
    }

    /// Imports one entry with the id `id` at `now`, counting it in `tally`. An entry with
    /// empty content is skipped; so is one without a vector (its own, else `computed`), and
    /// one that `duplicate` marks as a near duplicate. Otherwise its vector is set in the
    /// index and the memory stored; when the store refuses it, the vector is taken out of
    /// the index again and the entry skipped.
    pub fn import_entry_at(
        &mut self,
        tally: &mut ImportResult,
        entry: ExportEntry,
        computed: Option<Vec<u32>>,
        duplicate: bool,
        namespace: Option<&str>,
        id: String,
        now: i64,
    ) -> (outcome: EntryOutcome)
        requires
            old(self).wf(),
            old(tally).imported < usize::MAX,
            old(tally).skipped < usize::MAX,
        ensures
            final(self).wf(),
            import_done(*old(self), *final(self), *old(tally), *final(tally), entry@, opt_words(computed), duplicate, ns_view(namespace), id@, now, outcome),
    {
        if entry.content.as_str().is_empty() {
            tally.skipped = tally.skipped + 1;
            return EntryOutcome::SkippedEmpty;
        }
        let vector = match entry.embedding {
            Some(e) => e,
            None => match computed {
                Some(c) => c,
                None => {
                    tally.skipped = tally.skipped + 1;
                    return EntryOutcome::SkippedNoVector;
                },
            },
        };
        if duplicate {
            tally.skipped = tally.skipped + 1;
            return EntryOutcome::SkippedDuplicate;
        }
        let ghost ev = entry@;
        let ns = match namespace {
            Some(n) => String::from_str(n),
            None => String::from_str("default"),
        };
        let mut source = String::from_str("import:");
        match &entry.source {
            Some(s) => source.append(s.as_str()),
            None => {},
        }
        let memory = Memory {
            id: id.clone(),
            content: entry.content,
            embedding: clone_words(&vector),
            tags: entry.tags,
            metadata: entry.metadata,
            created_at: entry.created_at,
            updated_at: now,
            namespace: ns,
            access_count: 0,
            last_accessed: None,
            deprecated: false,
            deprecate_reason: None,
            valid_from: Some(entry.created_at),
            valid_until: None,
            memory_type: String::from_str("fact"),
            importance_milli: 500,
            pinned: false,
            content_type: String::from_str("text"),
            slug: None,
            source: Some(source),
            source_type: String::from_str("import"),
        };
        assert(memory@ == imported_memory(ev, vector@, id@, now, ns_view(namespace)));
        self.index.insert(id.clone(), vector);
        match self.store.insert(memory) {
            Ok(()) => {
                tally.imported = tally.imported + 1;
                EntryOutcome::Imported
            },
            Err(_) => {
                self.index.remove(&id);
                tally.skipped = tally.skipped + 1;
                EntryOutcome::SkippedRejected
            },
        }
    }

    /// Imports one entry now, under a fresh random id (see [`Uteke::import_entry_at`]).
    pub fn import_entry(
        &mut self,
        tally: &mut ImportResult,
        entry: ExportEntry,
        computed: Option<Vec<u32>>,
        duplicate: bool,
        namespace: Option<&str>,
    ) -> (outcome: EntryOutcome)
        requires
            old(self).wf(),
            old(tally).imported < usize::MAX,
            old(tally).skipped < usize::MAX,
        ensures
            final(self).wf(),
            exists|id: Seq<char>, now: i64|
                is_v4_uuid_text(id) && now >= 0 && #[trigger] import_done(*old(self), *final(self), *old(tally), *final(tally), entry@, opt_words(computed), duplicate, ns_view(namespace), id, now, outcome),
    {
        let id = new_memory_id();
        let now = now_millis();
        self.import_entry_at(tally, entry, computed, duplicate, namespace, id, now)
    }

    /// Ends an import: saves the index when at least one entry was imported.
    pub fn finish_import(&mut self, tally: &ImportResult)
        ensures
            final(self).store@ == old(self).store@,
            final(self).index@.entries == old(self).index@.entries,
            tally.imported > 0 ==> final(self).index@.persisted == old(self).index@.entries && !final(self).index@.dirty,
            tally.imported == 0 ==> final(self).index@ == old(self).index@,
            final(self).recall_cache@ == old(self).recall_cache@,
    {
        if tally.imported > 0 {
            self.index.save();
        }
    }
}

} // verus!
