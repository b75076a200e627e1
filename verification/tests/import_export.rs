use uteke_core::engine::{LifecycleConfig, TierConfig, Uteke};
use uteke_core::import_export::{
    detect_format, embed_step, entry_needs_embedding, needs_embedder, parse_plan, EmbedStep, EntryOutcome, ExportEntry,
    ImportFormat, ParsePlan,
};
use uteke_core::reports::ImportResult;
use uteke_core::text::{join_lines, jsonl_lines, trim_text};
use uteke_core::types::Memory;

fn engine() -> Uteke {
    Uteke::new(
        TierConfig { hot_days: 7, warm_days: 30 },
        LifecycleConfig {
            soft_delete_only: true,
            max_deprecate_basis_points: 100,
            min_deprecate_per_cycle: 1,
            max_deprecate_per_cycle: 10,
            min_age_days: 30,
            max_access_count: 1,
            auto_prune_enabled: true,
            deprecated_ttl_days: 7,
        },
    )
}

fn entry(content: &str, embedding: Option<Vec<u32>>) -> ExportEntry {
    ExportEntry {
        content: content.to_string(),
        tags: vec!["t".to_string()],
        metadata: "{}".to_string(),
        created_at: 1_704_067_200_000,
        source: Some("notes".to_string()),
        embedding,
    }
}

/// Reads one JSON object as an import entry, as an import does: `content` is required,
/// `created_at` is RFC 3339 text.
fn parse_entry(text: &str) -> Option<ExportEntry> {
    let v: serde_json::Value = serde_json::from_str(text).ok()?;
    let content = v.get("content")?.as_str()?.to_string();
    let tags = match v.get("tags") {
        Some(t) => t.as_array()?.iter().map(|x| x.as_str().map(str::to_string)).collect::<Option<Vec<_>>>()?,
        None => vec![],
    };
    let created_at = chrono::DateTime::parse_from_rfc3339(v.get("created_at")?.as_str()?).ok()?.timestamp_millis();
    Some(ExportEntry {
        content,
        tags,
        metadata: v.get("metadata").map(|m| m.to_string()).unwrap_or_else(|| "null".to_string()),
        created_at,
        source: v.get("source").and_then(|s| s.as_str()).map(str::to_string),
        embedding: None,
    })
}

#[test]
fn test_import_jsonl_multiple_lines() {
    let jsonl = r#"{"content":"first","tags":[],"metadata":{},"created_at":"2024-01-01T00:00:00Z","source":null}
{"content":"second","tags":[],"metadata":{},"created_at":"2024-01-01T00:00:00Z","source":null}"#;
    let mut entries = Vec::new();
    let mut failed = 0;
    for line in &jsonl_lines(jsonl) {
        match parse_entry(line) {
            Some(e) => entries.push(e),
            None => failed += 1,
        }
    }
    assert_eq!(entries.len(), 2);
    assert_eq!(failed, 0);
    assert_eq!(entries[0].content, "first");
    assert_eq!(entries[1].content, "second");
}

#[test]
fn test_import_pretty_printed_single_object() {
    let pretty = r#"{
  "content": "hello pretty",
  "tags": ["test"],
  "metadata": {},
  "created_at": "2024-01-01T00:00:00Z",
  "source": null
}"#;
    let trimmed = trim_text(pretty);
    assert!(trimmed.starts_with('{'));
    assert_eq!(detect_format(pretty), ImportFormat::JsonObjectOrLines);
    let result = parse_entry(&trimmed);
    assert!(result.is_some(), "Pretty-printed JSON should parse as single object");
    assert_eq!(parse_plan(detect_format(pretty), result.is_some()), ParsePlan::Object);
    let entry = result.unwrap();
    assert_eq!(entry.content, "hello pretty");
    assert_eq!(entry.tags, vec!["test".to_string()]);
    assert_eq!(entry.created_at, 1_704_067_200_000);
}

#[test]
fn test_parse_plan_falls_back_to_lines() {
    assert_eq!(parse_plan(ImportFormat::JsonArray, false), ParsePlan::Array);
    assert_eq!(parse_plan(ImportFormat::JsonObjectOrLines, true), ParsePlan::Object);
    assert_eq!(parse_plan(ImportFormat::JsonObjectOrLines, false), ParsePlan::Lines);
    assert_eq!(parse_plan(ImportFormat::JsonLines, true), ParsePlan::Lines);
}

#[test]
fn test_embed_step_retries_three_times_with_doubling_waits() {
    assert_eq!(embed_step(0, true), EmbedStep::Use);
    assert_eq!(embed_step(0, false), EmbedStep::Wait { millis: 200, retry: true });
    assert_eq!(embed_step(1, false), EmbedStep::Wait { millis: 400, retry: true });
    assert_eq!(embed_step(2, false), EmbedStep::Wait { millis: 800, retry: false });
    assert_eq!(embed_step(2, true), EmbedStep::Use);
}

#[test]
fn test_detect_format() {
    assert_eq!(detect_format("  [{\"content\":\"a\"}]"), ImportFormat::JsonArray);
    assert_eq!(detect_format("\n{\"content\":\"a\"}\n"), ImportFormat::JsonObjectOrLines);
    assert_eq!(detect_format("not json"), ImportFormat::JsonLines);
    assert_eq!(detect_format(""), ImportFormat::JsonLines);
}

#[test]
fn test_jsonl_lines_trims_and_skips_blank() {
    let lines = jsonl_lines("  a  \r\n\n\u{3000}\n b\n");
    assert_eq!(lines, vec!["a".to_string(), "b".to_string()]);
    assert!(jsonl_lines("").is_empty());
}

#[test]
fn test_trim_text_unicode_white_space() {
    assert_eq!(trim_text("\u{a0}\t x y \u{2029}"), "x y");
    assert_eq!(trim_text("   "), "");
}

#[test]
fn test_jsonl_round_trip() {
    let lines = vec!["{\"a\":1}".to_string(), "{\"b\":2}".to_string(), "x".to_string()];
    let text = join_lines(&lines);
    assert_eq!(text, "{\"a\":1}\n{\"b\":2}\nx");
    assert_eq!(jsonl_lines(&text), lines);
    assert_eq!(join_lines(&vec![]), "");
}

#[test]
fn test_export_omits_vectors_and_deprecated() {
    let mut u = engine();
    let mut tally = ImportResult { imported: 0, skipped: 0 };
    u.import_entry_at(&mut tally, entry("kept", Some(vec![1])), None, false, Some("work"), "id-1".to_string(), 5);
    u.import_entry_at(&mut tally, entry("other ns", Some(vec![1])), None, false, None, "id-2".to_string(), 5);
    let out = u.export(Some("work")).unwrap();
    assert_eq!(out.len(), 1);
    assert_eq!(out[0].content, "kept");
    assert_eq!(out[0].tags, vec!["t".to_string()]);
    assert_eq!(out[0].created_at, 1_704_067_200_000);
    assert!(out[0].embedding.is_none());
    assert_eq!(u.export(None).unwrap().len(), 2);
}

#[test]
fn test_import_entry_outcomes() {
    let mut u = engine();
    let mut tally = ImportResult { imported: 0, skipped: 1 };
    assert_eq!(
        u.import_entry_at(&mut tally, entry("", None), None, false, None, "e".to_string(), 1),
        EntryOutcome::SkippedEmpty
    );
    assert_eq!(
        u.import_entry_at(&mut tally, entry("no vector", None), None, false, None, "n".to_string(), 1),
        EntryOutcome::SkippedNoVector
    );
    assert_eq!(
        u.import_entry_at(&mut tally, entry("dup", Some(vec![1])), None, true, None, "d".to_string(), 1),
        EntryOutcome::SkippedDuplicate
    );
    assert_eq!(
        u.import_entry_at(&mut tally, entry("computed", None), Some(vec![7, 8]), false, None, "c".to_string(), 42),
        EntryOutcome::Imported
    );
    assert_eq!(
        u.import_entry_at(&mut tally, entry("clash", Some(vec![3])), None, false, None, "c".to_string(), 43),
        EntryOutcome::SkippedRejected
    );
    assert_eq!((tally.imported, tally.skipped), (1, 5));
    let m: &Memory = &u.store.memories()[0];
    assert_eq!(m.id, "c");
    assert_eq!(m.embedding, vec![7, 8]);
    assert_eq!(m.namespace, "default");
    assert_eq!(m.source.as_deref(), Some("import:notes"));
    assert_eq!(m.source_type, "import");
    assert_eq!(m.memory_type, "fact");
    assert_eq!(m.importance_milli, 500);
    assert_eq!(m.valid_from, Some(1_704_067_200_000));
    assert_eq!(m.updated_at, 42);
    assert_eq!(u.store.memories().len(), 1);
    // The refused entry's vector was set and taken out again: "c" is gone from the index.
    assert_eq!(u.index.len(), 0);
    u.finish_import(&tally);
    assert!(!u.index.is_dirty());
}

#[test]
fn test_import_entry_fresh_random_id() {
    let mut u = engine();
    let mut tally = ImportResult { imported: 0, skipped: 0 };
    let out = u.import_entry(&mut tally, entry("x", Some(vec![1])), None, false, None);
    assert_eq!(out, EntryOutcome::Imported);
    let id = &u.store.memories()[0].id;
    assert_eq!(id.len(), 36);
    assert_eq!(id.chars().nth(14), Some('4'));
    assert_eq!(id.chars().filter(|c| *c == '-').count(), 4);
}

#[test]
fn test_needs_embedder() {
    assert!(!needs_embedder(&vec![entry("a", Some(vec![1]))]));
    assert!(needs_embedder(&vec![entry("a", Some(vec![1])), entry("b", None)]));
    assert!(entry_needs_embedding(&entry("b", None)));
    assert!(!entry_needs_embedding(&entry("", None)));
}
