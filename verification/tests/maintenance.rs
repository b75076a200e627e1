use uteke_core::engine::{LifecycleConfig, TierConfig, Uteke};
use uteke_core::doctor::HostFacts;
use uteke_core::reports::DoctorStatus;
use uteke_core::types::{DocChunk, Memory};

const DAY: i64 = 86_400_000;
const NOW: i64 = 1_700_000_000_000;

fn lifecycle(soft: bool) -> LifecycleConfig {
    LifecycleConfig {
        soft_delete_only: soft,
        max_deprecate_basis_points: 5000,
        min_deprecate_per_cycle: 1,
        max_deprecate_per_cycle: 10,
        min_age_days: 30,
        max_access_count: 1,
        auto_prune_enabled: true,
        deprecated_ttl_days: 7,
    }
}

fn engine(soft: bool) -> Uteke {
    Uteke::new(TierConfig { hot_days: 7, warm_days: 30 }, lifecycle(soft))
}

fn mem(id: &str, ns: &str, age_days: i64, access: u64) -> Memory {
    Memory {
        id: id.to_string(),
        content: format!("content of {id}"),
        embedding: vec![1, 2, 3],
        tags: vec![],
        metadata: "{}".to_string(),
        created_at: NOW - age_days * DAY,
        updated_at: NOW - age_days * DAY,
        namespace: ns.to_string(),
        access_count: access,
        last_accessed: None,
        deprecated: false,
        deprecate_reason: None,
        valid_from: None,
        valid_until: None,
        memory_type: "fact".to_string(),
        importance_milli: 500,
        pinned: false,
        content_type: "text".to_string(),
        slug: None,
        source: None,
        source_type: "user".to_string(),
    }
}

fn add(u: &mut Uteke, m: Memory) {
    let id = m.id.clone();
    let v = m.embedding.clone();
    u.store.insert(m).unwrap();
    if !v.is_empty() {
        u.index.insert(id, v);
    }
}

fn index_keys(u: &Uteke) -> Vec<String> {
    u.index.entries().iter().map(|e| e.0.clone()).collect()
}

#[test]
fn test_verify_counts() {
    let mut u = engine(true);
    add(&mut u, mem("a", "default", 1, 0));
    add(&mut u, mem("b", "default", 1, 0));
    let r = u.verify().unwrap();
    assert_eq!((r.db_count, r.index_count, r.consistent), (2, 2, true));
    let mut m = mem("c", "default", 1, 0);
    m.embedding = vec![];
    add(&mut u, m);
    let r = u.verify().unwrap();
    assert_eq!((r.db_count, r.index_count, r.consistent), (3, 2, false));
}

#[test]
fn test_repair_preserves_doc_chunk_vectors() {
    let mut u = engine(true);
    u.store.add_chunk(DocChunk { id: "doc1-0".to_string(), embedding: vec![9, 9] }).unwrap();
    assert!(u.index.len() == 0);
    let report = u.repair().unwrap();
    assert!(report.index_after >= 1, "rebuild must include document chunk vectors, got index_after={}", report.index_after);
    assert_eq!(report.index_before, 0);
    assert_eq!(report.db_count, 0);
    assert_eq!(index_keys(&u), vec!["chunk:doc1-0".to_string()]);
    assert!(!u.index.is_dirty());
}

#[test]
fn test_repair_rebuilds_from_live_embedded_memories() {
    let mut u = engine(true);
    add(&mut u, mem("a", "default", 1, 0));
    let mut gone = mem("b", "default", 1, 0);
    gone.deprecated = true;
    add(&mut u, gone);
    let mut empty = mem("c", "default", 1, 0);
    empty.embedding = vec![];
    add(&mut u, empty);
    u.index.insert("stale".to_string(), vec![5]);
    u.store.add_chunk(DocChunk { id: "x".to_string(), embedding: vec![7] }).unwrap();
    let report = u.repair().unwrap();
    assert_eq!(report.db_count, 2);
    assert_eq!(report.index_before, 3);
    assert_eq!(report.index_after, 2);
    assert_eq!(index_keys(&u), vec!["a".to_string(), "chunk:x".to_string()]);
    let v = u.verify().unwrap();
    assert_eq!((v.db_count, v.index_count, v.consistent), (2, 2, true));
    let again = u.repair().unwrap();
    assert_eq!((again.db_count, again.index_before, again.index_after), (2, 2, 2));
    assert_eq!(index_keys(&u), vec!["a".to_string(), "chunk:x".to_string()]);
}

#[test]
fn test_repair_with_a_memory_id_that_is_a_chunk_key() {
    // The one case the repair laws leave out: a memory whose id is `chunk:<id>` of a chunk.
    let mut u = engine(true);
    add(&mut u, mem("chunk:x", "default", 1, 0));
    u.store.add_chunk(DocChunk { id: "x".to_string(), embedding: vec![7] }).unwrap();
    let first = u.repair().unwrap();
    assert_eq!(first.index_after, 2);
    let v = u.verify().unwrap();
    assert_eq!(v.index_count, 1);
    let again = u.repair().unwrap();
    assert_eq!(again.index_before, 1);
}

#[test]
fn test_counts_pinned_deprecated_namespaces() {
    let mut u = engine(true);
    let mut p = mem("p", "work", 1, 0);
    p.pinned = true;
    add(&mut u, p);
    let mut d = mem("d", "work", 1, 0);
    d.deprecated = true;
    add(&mut u, d);
    add(&mut u, mem("a", "home", 1, 0));
    add(&mut u, mem("b", "work", 1, 0));
    assert_eq!(u.count_pinned(None).unwrap(), 1);
    assert_eq!(u.count_pinned(Some("home")).unwrap(), 0);
    assert_eq!(u.count_deprecated(Some("work")).unwrap(), 1);
    assert_eq!(u.count_deprecated(Some("home")).unwrap(), 0);
    let counts = u.namespace_counts().unwrap();
    assert_eq!(counts, vec![("work".to_string(), 2), ("home".to_string(), 1)]);
}

#[test]
fn test_aging_status_tiers() {
    let mut u = engine(true);
    add(&mut u, mem("hot", "default", 2, 0));
    add(&mut u, mem("warm", "default", 10, 3));
    add(&mut u, mem("cold", "default", 40, 3));
    let mut recent = mem("old-but-used", "default", 90, 5);
    recent.last_accessed = Some(NOW - DAY);
    add(&mut u, recent);
    let mut dep = mem("dep", "default", 1, 0);
    dep.deprecated = true;
    add(&mut u, dep);
    let s = u.aging_status_at(None, NOW).unwrap();
    assert_eq!((s.total, s.hot, s.warm, s.cold, s.never_accessed), (4, 2, 1, 1, 1));
}

#[test]
fn test_aging_preview_lists_oldest_first() {
    let mut u = engine(true);
    add(&mut u, mem("m40", "default", 40, 0));
    add(&mut u, mem("m90", "default", 90, 1));
    add(&mut u, mem("m10", "default", 10, 0));
    add(&mut u, mem("busy", "default", 100, 7));
    let mut pinned = mem("pinned", "default", 200, 0);
    pinned.pinned = true;
    add(&mut u, pinned);
    add(&mut u, mem("other-ns", "elsewhere", 300, 0));
    let aged = u.aging_preview_at(30, 1, Some("default"), NOW).unwrap();
    let ids: Vec<&str> = aged.iter().map(|m| m.id.as_str()).collect();
    assert_eq!(ids, vec!["m90", "m40"]);
    let all = u.aging_preview_at(30, 1, None, NOW).unwrap();
    let ids: Vec<&str> = all.iter().map(|m| m.id.as_str()).collect();
    assert_eq!(ids, vec!["other-ns", "m90", "m40"]);
}

fn aged_engine(soft: bool) -> Uteke {
    let mut u = engine(soft);
    add(&mut u, mem("a60", "default", 60, 0));
    add(&mut u, mem("a50", "default", 50, 0));
    add(&mut u, mem("a40", "default", 40, 0));
    add(&mut u, mem("fresh", "default", 1, 0));
    u
}

#[test]
fn test_aging_cleanup_soft_delete_caps_at_percent() {
    let mut u = aged_engine(true);
    // 50% of 4 memories is 2: the two oldest aged memories are deprecated.
    let r = u.aging_cleanup_at(30, 1, None, NOW).unwrap();
    assert_eq!(r.deleted, 2);
    let mems = u.store.memories();
    assert_eq!(mems.len(), 4);
    assert!(mems[0].deprecated && mems[1].deprecated && !mems[2].deprecated && !mems[3].deprecated);
    assert_eq!(mems[0].deprecate_reason.as_deref(), Some("auto-aging: older than 30 days, access count ≤ 1"));
    assert_eq!(mems[0].updated_at, NOW);
    assert_eq!(index_keys(&u), vec!["a40".to_string(), "fresh".to_string()]);
    assert!(!u.index.is_dirty());
}

#[test]
fn test_aging_cleanup_hard_delete() {
    let mut u = aged_engine(false);
    let r = u.aging_cleanup_at(30, 1, None, NOW).unwrap();
    assert_eq!(r.deleted, 2);
    let ids: Vec<&str> = u.store.memories().iter().map(|m| m.id.as_str()).collect();
    assert_eq!(ids, vec!["a40", "fresh"]);
    assert_eq!(index_keys(&u), vec!["a40".to_string(), "fresh".to_string()]);
}

#[test]
fn test_aging_cleanup_rounds_down_and_clamps() {
    let mut u = aged_engine(true);
    u.lifecycle_config.max_deprecate_basis_points = 100; // 1% of 4 is 0, raised to the minimum 1
    assert_eq!(u.aging_cleanup_at(30, 1, None, NOW).unwrap().deleted, 1);
    let mut u = aged_engine(true);
    u.lifecycle_config.max_deprecate_basis_points = 10_000; // 100% of 4, lowered to the maximum 2
    u.lifecycle_config.max_deprecate_per_cycle = 2;
    assert_eq!(u.aging_cleanup_at(30, 1, None, NOW).unwrap().deleted, 2);
    let mut u = aged_engine(true);
    u.lifecycle_config.max_deprecate_basis_points = 6250; // 62.5% of 4 is 2.5: at most 2
    assert_eq!(u.aging_cleanup_at(30, 1, None, NOW).unwrap().deleted, 2);
    let mut u = aged_engine(true);
    u.lifecycle_config.max_deprecate_per_cycle = 0;
    u.lifecycle_config.min_deprecate_per_cycle = 0;
    assert_eq!(u.aging_cleanup_at(30, 1, None, NOW).unwrap().deleted, 0);
    assert!(u.store.memories().iter().all(|m| !m.deprecated));
}

#[test]
fn test_aging_cleanup_now_takes_the_oldest() {
    // Against the real clock every memory here is older than 30 days; the cap is 50% of 4.
    let mut u = aged_engine(true);
    let r = u.aging_cleanup(30, 1, None).unwrap();
    assert_eq!(r.deleted, 2);
    let mems = u.store.memories();
    assert!(mems[0].deprecated && mems[1].deprecated && !mems[2].deprecated && !mems[3].deprecated);
    assert!(mems[0].updated_at > NOW);
}

#[test]
fn test_aging_cleanup_never_exceeds_the_percentage() {
    // 1% of 150 memories is 1.5: cleanup takes 1, not 2.
    let mut u = engine(true);
    u.lifecycle_config.max_deprecate_basis_points = 100;
    u.lifecycle_config.min_deprecate_per_cycle = 1;
    u.lifecycle_config.max_deprecate_per_cycle = 10;
    for i in 0..150 {
        add(&mut u, mem(&format!("m{i}"), "default", 200 - i as i64, 0));
    }
    let r = u.aging_cleanup_at(30, 1, None, NOW).unwrap();
    assert_eq!(r.deleted, 1);
    assert!(u.store.memories()[0].deprecated && !u.store.memories()[1].deprecated);
}

#[test]
fn test_aging_cleanup_nothing_aged() {
    let mut u = engine(true);
    add(&mut u, mem("fresh", "default", 1, 0));
    assert_eq!(u.aging_cleanup_at(30, 1, None, NOW).unwrap().deleted, 0);
    assert!(u.index.is_dirty());
}

fn deprecated_mem(id: &str, days_ago: i64) -> Memory {
    let mut m = mem(id, "default", 100, 0);
    m.deprecated = true;
    m.updated_at = NOW - days_ago * DAY;
    m
}

#[test]
fn test_prune_deletes_expired_deprecated() {
    let mut u = engine(true);
    add(&mut u, deprecated_mem("old", 30));
    add(&mut u, deprecated_mem("recent", 2));
    add(&mut u, mem("live", "default", 100, 0));
    let dry = u.prune_at(7, None, true, NOW).unwrap();
    assert_eq!((dry.pruned, dry.ids.len(), dry.deprecated), (0, 0, 1));
    assert_eq!(dry.deprecated_ids, vec!["old".to_string()]);
    assert_eq!(u.store.memories().len(), 3);
    let r = u.prune_at(7, None, false, NOW).unwrap();
    assert_eq!(r.pruned, 1);
    assert_eq!(r.ids, vec!["old".to_string()]);
    assert_eq!(r.deprecated, 1);
    let ids: Vec<&str> = u.store.memories().iter().map(|m| m.id.as_str()).collect();
    assert_eq!(ids, vec!["recent", "live"]);
    assert_eq!(index_keys(&u), vec!["recent".to_string(), "live".to_string()]);
    assert_eq!(dry.deprecated_ids, r.ids);
    let again = u.prune_at(7, None, false, NOW).unwrap();
    assert_eq!((again.pruned, again.deprecated), (0, 0));
    assert_eq!(u.store.memories().len(), 2);
}

#[test]
fn test_prune_nothing_expired() {
    let mut u = engine(true);
    add(&mut u, deprecated_mem("recent", 2));
    let r = u.prune_at(7, None, false, NOW).unwrap();
    assert_eq!((r.pruned, r.deprecated), (0, 0));
    assert!(r.deprecated_ids.is_empty());
}

#[test]
fn test_lifecycle_cycle_deprecates_then_prunes() {
    let mut u = aged_engine(true);
    add(&mut u, deprecated_mem("expired", 30));
    u.recall_cache.put("default", "q", vec!["a60".to_string()]);
    u.recall_cache.put("other", "q", vec![]);
    let r = u.lifecycle_cycle_at(Some("default"), NOW).unwrap();
    // 4 live memories: 50% is 2; candidates a60, a50, a40.
    assert_eq!(r.total_active, 4);
    assert_eq!(r.candidates, 3);
    assert_eq!(r.cap, 2);
    assert_eq!(r.deprecated, 2);
    assert_eq!(r.deprecated_ids, vec!["a60".to_string(), "a50".to_string()]);
    assert_eq!(r.pruned, 1);
    assert_eq!(r.pruned_ids, vec!["expired".to_string()]);
    let mems = u.store.memories();
    let ids: Vec<&str> = mems.iter().map(|m| m.id.as_str()).collect();
    assert_eq!(ids, vec!["a60", "a50", "a40", "fresh"]);
    assert_eq!(mems[0].deprecate_reason.as_deref(), Some("lifecycle_cycle: aged memory (auto-deprecate)"));
    assert_eq!(index_keys(&u), vec!["a40".to_string(), "fresh".to_string()]);
    assert!(u.recall_cache.get("default", "q").is_none());
    assert!(u.recall_cache.get("other", "q").is_some());
}

#[test]
fn test_lifecycle_cycle_without_prune_clears_cache() {
    let mut u = aged_engine(true);
    u.lifecycle_config.auto_prune_enabled = false;
    u.lifecycle_config.max_deprecate_basis_points = 100; // 1% of 4 is 0, raised to 1
    add(&mut u, deprecated_mem("expired", 30));
    u.recall_cache.put("other", "q", vec![]);
    let r = u.lifecycle_cycle_at(None, NOW).unwrap();
    assert_eq!((r.cap, r.deprecated, r.pruned), (1, 1, 0));
    assert!(r.pruned_ids.is_empty());
    assert_eq!(u.store.memories().len(), 5);
    assert!(u.recall_cache.get("other", "q").is_none());
}

#[test]
fn test_lifecycle_cycle_spares_pinned() {
    let mut u = engine(true);
    let mut p = mem("pinned", "default", 400, 0);
    p.pinned = true;
    add(&mut u, p);
    add(&mut u, mem("old", "default", 300, 0));
    let r = u.lifecycle_cycle_at(None, NOW).unwrap();
    assert_eq!(r.deprecated_ids, vec!["old".to_string()]);
    assert!(!u.store.memories()[0].deprecated);
}

#[test]
fn test_shutdown_saves_only_when_dirty() {
    let mut u = engine(true);
    add(&mut u, mem("a", "default", 1, 0));
    assert!(u.index.is_dirty());
    u.shutdown().unwrap();
    assert!(!u.index.is_dirty());
    u.shutdown().unwrap();
    assert!(!u.index.is_dirty());
}

#[test]
fn test_stats_counts_tags_and_cache() {
    let mut u = engine(true);
    let mut a = mem("a", "default", 2, 0);
    a.tags = vec!["x".to_string(), "y".to_string()];
    let mut b = mem("b", "default", 40, 0);
    b.tags = vec!["y".to_string(), "z".to_string()];
    add(&mut u, a);
    add(&mut u, b);
    u.recall_cache.put("default", "q", vec![]);
    assert!(u.recall_cache.get("default", "q").is_some());
    assert!(u.recall_cache.get("default", "missing").is_none());
    let st = u.stats_at(None, NOW, 4096).unwrap();
    assert_eq!((st.total_memories, st.unique_tags, st.db_size_bytes), (2, 3, 4096));
    assert_eq!((st.hot, st.warm, st.cold), (1, 0, 1));
    assert_eq!((st.cache_hits, st.cache_misses), (1, 1));
}

#[test]
fn test_reembed_missing_fills_vectors() {
    let mut u = engine(true);
    let mut a = mem("a", "default", 1, 0);
    a.embedding = vec![];
    let mut b = mem("b", "default", 1, 0);
    b.embedding = vec![];
    add(&mut u, a);
    add(&mut u, b);
    add(&mut u, mem("c", "default", 1, 0));
    let missing = u.missing_embeddings();
    assert_eq!(missing.len(), 2);
    let r = u.reembed_missing_at(vec![Some(vec![4, 4]), None], NOW).unwrap();
    assert_eq!((r.total_scanned, r.missing_count, r.reembedded, r.failed), (3, 2, 1, 1));
    assert_eq!(u.store.memories()[0].embedding, vec![4, 4]);
    assert_eq!(u.store.memories()[0].updated_at, NOW);
    assert!(u.store.memories()[1].embedding.is_empty());
    assert_eq!(index_keys(&u), vec!["c".to_string(), "a".to_string()]);
    assert!(!u.index.is_dirty());
}

#[test]
fn test_doctor_reports_mismatch_and_model() {
    let mut u = engine(true);
    let mut m = mem("a", "default", 1, 0);
    m.embedding = vec![];
    add(&mut u, m);
    let host = HostFacts { db_size_text: "12 KB".to_string(), home_found: true, model_files_present: false };
    let rep = u.doctor(&host).unwrap();
    let lines: Vec<(String, DoctorStatus, String)> =
        rep.checks.iter().map(|c| (c.name.clone(), c.status, c.detail.clone())).collect();
    assert_eq!(lines[0], ("SQLite DB".to_string(), DoctorStatus::Pass, "1 memories, 12 KB".to_string()));
    assert_eq!(lines[1], ("usearch index".to_string(), DoctorStatus::Pass, "0 vectors".to_string()));
    assert_eq!(
        lines[2],
        ("Index consistency".to_string(), DoctorStatus::Fail, "MISMATCH: DB=1 Index=0 — run `uteke repair`".to_string())
    );
    assert_eq!(
        lines[3],
        ("Embedding model".to_string(), DoctorStatus::Fail, "Model files not found — will download on first use".to_string())
    );
}

#[test]
fn test_doctor_without_home() {
    let u = engine(true);
    let host = HostFacts { db_size_text: "0 B".to_string(), home_found: false, model_files_present: true };
    let rep = u.doctor(&host).unwrap();
    assert_eq!(rep.checks.len(), 4);
    assert_eq!(rep.checks[2].detail, "DB=0 Index=0");
    assert_eq!(rep.checks[3].name, "Home directory");
    assert_eq!(rep.checks[3].detail, "Cannot determine home directory. Set UTEKE_HOME.");
}

#[test]
fn test_store_refuses_duplicate_ids() {
    let mut u = engine(true);
    add(&mut u, mem("a", "default", 1, 0));
    assert!(u.store.insert(mem("a", "default", 1, 0)).is_err());
    assert!(u.store.update(mem("zz", "default", 1, 0)).is_err());
    assert!(u.store.add_chunk(DocChunk { id: "c".to_string(), embedding: vec![] }).is_ok());
    assert!(u.store.add_chunk(DocChunk { id: "c".to_string(), embedding: vec![] }).is_err());
}

#[test]
fn test_clock_is_after_epoch() {
    let u = aged_engine(true);
    assert!(u.aging_status(None).unwrap().total == 4);
    let aged = u.aging_preview(30, 1, None).unwrap();
    assert!(aged.len() >= 3);
    assert_eq!(aged[0].id, "a60");
}

#[test]
fn test_repair_restores_consistency_after_soft_delete() {
    let mut u = aged_engine(true);
    let mut m = mem("no-vector", "default", 1, 0);
    m.embedding = vec![];
    add(&mut u, m);
    assert!(!u.verify().unwrap().consistent);
    u.aging_cleanup_at(30, 1, None, NOW).unwrap();
    let missing = u.missing_embeddings();
    assert_eq!(missing.len(), 1);
    u.reembed_missing_at(vec![Some(vec![6])], NOW).unwrap();
    u.repair().unwrap();
    let v = u.verify().unwrap();
    // 50% of 5 memories is 2.5, so 2 are deprecated: 3 live memories remain, each with a vector.
    assert_eq!((v.db_count, v.index_count, v.consistent), (3, 3, true));
}
