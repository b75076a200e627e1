use uteke_core::clock::format_minute;
use uteke_core::ledger::{
    ledger_listing, needs_prefix_lookup, no_prefix_match_message, no_supersession_message, resolution_lines, short_id,
    undo_lines, ContradictionResolution,
};
use uteke_core::text::decimal_string;

#[test]
fn test_short_id() {
    assert_eq!(short_id("550e8400-e29b-41d4-a716-446655440000"), "550e8400");
    assert_eq!(short_id("abc"), "abc");
    assert_eq!(short_id("ééééééééé"), "éééééééé");
}

#[test]
fn test_format_minute() {
    assert_eq!(format_minute(0).as_deref(), Some("1970-01-01 00:00"));
    assert_eq!(format_minute(1_704_067_260_000).as_deref(), Some("2024-01-01 00:01"));
    assert_eq!(format_minute(947_638_923_004).as_deref(), Some("2000-01-12 01:02"));
    assert_eq!(format_minute(1_709_164_800_000).as_deref(), Some("2024-02-29 00:00"));
    assert_eq!(format_minute(-60_000).as_deref(), Some("1969-12-31 23:59"));
    assert_eq!(format_minute(-1).as_deref(), Some("1969-12-31 23:59"));
}

#[test]
fn test_format_minute_years_outside_four_digits() {
    assert_eq!(format_minute(253_402_300_800_000).as_deref(), Some("+10000-01-01 00:00"));
    assert_eq!(format_minute(-62_135_683_200_000).as_deref(), Some("0000-12-31 00:00"));
    assert_eq!(format_minute(-62_167_305_600_000).as_deref(), Some("-0001-12-31 00:00"));
}

#[test]
fn test_format_minute_range_edges() {
    assert_eq!(format_minute(8_210_266_876_799_999).as_deref(), Some("+262142-12-31 23:59"));
    assert_eq!(format_minute(8_210_266_876_800_000), None);
    assert_eq!(format_minute(-8_334_601_228_800_000).as_deref(), Some("-262143-01-01 00:00"));
    assert_eq!(format_minute(-8_334_601_228_800_001), None);
    assert_eq!(format_minute(i64::MAX), None);
    assert_eq!(format_minute(i64::MIN), None);
}

#[test]
fn test_resolution_lines() {
    let r = ContradictionResolution {
        id: "550e8400-e29b-41d4-a716-446655440000".to_string(),
        content: "x".repeat(70),
        deprecated_at: Some(0),
        deprecate_reason: None,
    };
    let lines = resolution_lines(&r);
    assert_eq!(lines[0], "  550e8400  [1970-01-01 00:00]");
    assert_eq!(lines[1], format!("    {}", "x".repeat(60)));
    assert_eq!(lines[2], "    reason: —");
    let r2 = ContradictionResolution {
        id: "ab".to_string(),
        content: "short".to_string(),
        deprecated_at: None,
        deprecate_reason: Some("superseded".to_string()),
    };
    let lines = resolution_lines(&r2);
    assert_eq!(lines, vec!["  ab  [unknown]".to_string(), "    short".to_string(), "    reason: superseded".to_string()]);
}

#[test]
fn test_ledger_listing() {
    assert_eq!(ledger_listing(&vec![]), vec!["No contradiction resolutions found.".to_string()]);
    let r = ContradictionResolution { id: "id".to_string(), content: "c".to_string(), deprecated_at: None, deprecate_reason: None };
    let lines = ledger_listing(&vec![r]);
    assert_eq!(lines.len(), 5);
    assert_eq!(lines[0], "Contradiction resolutions (1 total):");
    assert_eq!(lines[1], "");
    assert_eq!(lines[2], "  id  [unknown]");
}

#[test]
fn test_undo_messages() {
    assert!(!needs_prefix_lookup("550e8400-e29b-41d4-a716-446655440000"));
    assert!(needs_prefix_lookup("550e84"));
    assert_eq!(no_prefix_match_message("55"), "No memory matches id prefix '55'");
    assert_eq!(no_supersession_message("x"), "No supersession found for memory: x");
    let lines = undo_lines("a", "b");
    assert_eq!(lines[0], "✓ Restored memory a");
    assert_eq!(lines[1], "  was superseded by b");
}

#[test]
fn test_decimal_string() {
    assert_eq!(decimal_string(0), "0");
    assert_eq!(decimal_string(1203), "1203");
    assert_eq!(decimal_string(u64::MAX), u64::MAX.to_string());
}
