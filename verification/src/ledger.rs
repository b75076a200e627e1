//! The contradiction ledger as the command line shows it, and how an undo request names
//! its memory.

use vstd::prelude::*;
use vstd::string::StringSliceAdditionalSpecFns;

use crate::clock::{format_minute, minute_in_range, minute_text};
use crate::text::{append_str, char_prefix, decimal, prefix_chars, push_decimal};
use crate::types::opt_str_view;

verus! {

/// One resolved contradiction: the memory that lost, when and why it was deprecated.
#[derive(Debug)]
pub struct ContradictionResolution {
    pub id: String,
    pub content: String,
    pub deprecated_at: Option<i64>,
    pub deprecate_reason: Option<String>,
}

/// The first eight characters of an id (all of it when it is shorter).
pub fn short_id(id: &str) -> (r: String)
    ensures
        r@ == char_prefix(id@, 8),
{
    prefix_chars(id, 8)
}

/// The shown time of a deprecation: `%Y-%m-%d %H:%M`, or `unknown`.
pub open spec fn stamp_text(at: Option<i64>) -> Seq<char> {
    match at {
        Some(t) => if minute_in_range(t as int) {
            minute_text(t as int)
        } else {
            "unknown"@
        },
        None => "unknown"@,
    }
}

/// The three lines that show one resolution: short id and time, the first sixty
/// characters of the content, and the reason (`—` when there is none).
pub open spec fn resolution_text(id: Seq<char>, content: Seq<char>, at: Option<i64>, reason: Option<Seq<char>>) -> Seq<Seq<char>> {
    seq![
        "  "@ + char_prefix(id, 8) + "  ["@ + stamp_text(at) + "]"@,
        "    "@ + char_prefix(content, 60),
        "    reason: "@ + match reason {
            Some(r) => r,
            None => "—"@,
        },
    ]
}

/// The header of a listing of `n` resolutions (it is followed by a blank line).
pub open spec fn listing_header(n: nat) -> Seq<char> {
    "Contradiction resolutions ("@ + decimal(n) + " total):"@
}

/// The lines that show one resolution.
pub fn resolution_lines(r: &ContradictionResolution) -> (lines: Vec<String>)
    ensures
        lines@.map_values(|s: String| s@) == resolution_text(r.id@, r.content@, r.deprecated_at, opt_str_view(r.deprecate_reason)),
{
    let mut first = String::from_str("  ");
    append_str(&mut first, short_id(r.id.as_str()).as_str());
    append_str(&mut first, "  [");
    let stamp = match r.deprecated_at {
        Some(t) => match format_minute(t) {
            Some(s) => s,
            None => String::from_str("unknown"),
        },
        None => String::from_str("unknown"),
    };
    append_str(&mut first, stamp.as_str());
    append_str(&mut first, "]");
    let mut second = String::from_str("    ");
    append_str(&mut second, prefix_chars(r.content.as_str(), 60).as_str());
    let mut third = String::from_str("    reason: ");
    match &r.deprecate_reason {
        Some(reason) => append_str(&mut third, reason.as_str()),
        None => append_str(&mut third, "—"),
    }
    let mut lines: Vec<String> = Vec::new();
    lines.push(first);
    lines.push(second);
    lines.push(third);
    assert(lines@.map_values(|s: String| s@) =~= resolution_text(
        r.id@,
        r.content@,
        r.deprecated_at,
        opt_str_view(r.deprecate_reason),
    ));
    lines
}

/// The views of the lines of every resolution, in order.
pub open spec fn resolutions_text(rs: Seq<ContradictionResolution>) -> Seq<Seq<char>>
    decreases rs.len(),
{
    if rs.len() == 0 {
        Seq::empty()
    } else {
        let r = rs.last();
        resolutions_text(rs.drop_last()) + resolution_text(r.id@, r.content@, r.deprecated_at, opt_str_view(r.deprecate_reason))
    }
}

/// The text lines of a ledger listing.
pub open spec fn listing_text(rs: Seq<ContradictionResolution>) -> Seq<Seq<char>> {
    if rs.len() == 0 {
        seq!["No contradiction resolutions found."@]
    } else {
        seq![listing_header(rs.len()), Seq::<char>::empty()] + resolutions_text(rs)
    }
}

/// The lines that list the resolutions for a reader: a notice when there are none,
/// else a header with their number, a blank line, and each resolution.
pub fn ledger_listing(rs: &Vec<ContradictionResolution>) -> (lines: Vec<String>)
    ensures
        lines@.map_values(|s: String| s@) == listing_text(rs@),
{
    let mut lines: Vec<String> = Vec::new();
    if rs.len() == 0 {
        lines.push(String::from_str("No contradiction resolutions found."));
        assert(lines@.map_values(|s: String| s@) =~= listing_text(rs@));
        return lines;
    }
    let mut header = String::from_str("Contradiction resolutions (");
    push_decimal(&mut header, rs.len() as u64);
    append_str(&mut header, " total):");
    lines.push(header);
    lines.push(String::new());
    let ghost head = lines@.map_values(|s: String| s@);
    assert(head =~= seq![listing_header(rs@.len()), Seq::<char>::empty()]);
    for i in 0..rs.len()
        invariant
            lines@.map_values(|s: String| s@) == head + resolutions_text(rs@.take(i as int)),
    {
        let ghost before = lines@.map_values(|s: String| s@);
        let more = resolution_lines(&rs[i]);
        let ghost mv = more@.map_values(|s: String| s@);
        for k in 0..more.len()
            invariant
                mv == more@.map_values(|s: String| s@),
                lines@.map_values(|s: String| s@) == before + mv.take(k as int),
        {
            let ghost cur = lines@.map_values(|s: String| s@);
            let line = more[k].clone();
            assert(line@ == mv[k as int]);
            lines.push(line);
            assert(lines@.map_values(|s: String| s@) =~= cur.push(mv[k as int]));
            assert(mv.take(k + 1) =~= mv.take(k as int).push(mv[k as int]));
            assert(lines@.map_values(|s: String| s@) =~= before + mv.take(k + 1));
        }
        assert(mv.take(more@.len() as int) =~= mv);
        assert(rs@.take(i + 1).drop_last() =~= rs@.take(i as int));
        assert(lines@.map_values(|s: String| s@) =~= head + resolutions_text(rs@.take(i + 1)));
    }
    assert(rs@.take(rs@.len() as int) =~= rs@);
    lines
}

/// An undo names its memory by a full id (36 bytes) or else by a prefix that has to be
/// looked up.
pub fn needs_prefix_lookup(id: &str) -> (b: bool)
    ensures
        b == (id.spec_bytes().len() as usize != 36),
{
    id.len() != 36
}

/// The message when no memory matches an id prefix.
pub fn no_prefix_match_message(prefix: &str) -> (m: String)
    ensures
        m@ == "No memory matches id prefix '"@ + prefix@ + "'"@,
{
    let mut m = String::from_str("No memory matches id prefix '");
    append_str(&mut m, prefix);
    append_str(&mut m, "'");
    m
}

/// The message when the memory was not superseded.
pub fn no_supersession_message(id: &str) -> (m: String)
    ensures
        m@ == "No supersession found for memory: "@ + id@,
{
    let mut m = String::from_str("No supersession found for memory: ");
    append_str(&mut m, id);
    m
}

/// The lines that confirm an undone supersession.
pub fn undo_lines(restored: &str, winner: &str) -> (lines: Vec<String>)
    ensures
        lines@.map_values(|s: String| s@) == seq![
            "✓ Restored memory "@ + restored@,
            "  was superseded by "@ + winner@,
            "  supersession edges removed — the pair is no longer flagged"@,
        ],
{
    let mut a = String::from_str("✓ Restored memory ");
    append_str(&mut a, restored);
    let mut b = String::from_str("  was superseded by ");
    append_str(&mut b, winner);
    let c = String::from_str("  supersession edges removed — the pair is no longer flagged");
    let mut lines: Vec<String> = Vec::new();
    lines.push(a);
    lines.push(b);
    lines.push(c);
    assert(lines@.map_values(|s: String| s@) =~= seq![
        "✓ Restored memory "@ + restored@,
        "  was superseded by "@ + winner@,
        "  supersession edges removed — the pair is no longer flagged"@,
    ]);
    lines
}

} // verus!
