use myth::common::Level;
use myth::identity::lapse::{compute_lapse_score, lapse_threshold, should_lapse, LessonActivity, DAY_MS};
use myth::identity::normalize::{normalization_patterns_compile, normalize_aggressive, try_normalize_aggressive};
use myth::identity::store::{
    decode_header, encode_header, payload_bytes, HeaderError, IntegrityReport, SqliteVecStore,
    StoreError, UsearchStore, VectorsHeader, EMBEDDING_DIM, HEADER_SIZE,
};
use myth::identity::tier1::tier1_hash;
use myth::identity::tier2::Tier2Decision;
use myth::identity::tier3::{judge, Tier3Error};

// ---- Tier 1 ----

#[test]
fn same_text_produces_same_hash() {
    let a = tier1_hash(&normalize_aggressive("error: missing file"));
    let b = tier1_hash(&normalize_aggressive("error: missing file"));
    assert_eq!(a, b);
}

#[test]
fn different_text_produces_different_hash() {
    let a = tier1_hash(&normalize_aggressive("error: missing file"));
    let b = tier1_hash(&normalize_aggressive("error: bad syntax"));
    assert_ne!(a, b);
}

#[test]
fn timestamp_difference_collapses_to_same_hash() {
    let a = tier1_hash(&normalize_aggressive(
        "FileNotFound at 2026-04-19T14:23:45Z in /home/x/foo.log",
    ));
    let b = tier1_hash(&normalize_aggressive(
        "FileNotFound at 2026-04-20T09:11:02Z in /home/x/foo.log",
    ));
    assert_eq!(a, b, "timestamps must normalise to the same hash");
}

#[test]
fn hash_is_twenty_bytes() {
    let h = tier1_hash("anything");
    assert_eq!(h.len(), 20);
}

#[test]
fn tier1_hash_is_sha1_of_utf8() {
    // SHA-1("abc") = a9993e36 4706816a ba3e2571 7850c26c 9cd0d89d
    let h = tier1_hash("abc");
    assert_eq!(
        h,
        [
            0xa9, 0x99, 0x3e, 0x36, 0x47, 0x06, 0x81, 0x6a, 0xba, 0x3e, 0x25, 0x71, 0x78, 0x50,
            0xc2, 0x6c, 0x9c, 0xd0, 0xd8, 0x9d
        ]
    );
}

// ---- normalisation ----

#[test]
fn timestamp_is_replaced() {
    let s = normalize_aggressive("error at 2026-04-19T14:23:45Z");
    assert!(s.contains("<ts>"));
    assert!(!s.contains("2026"));
}

#[test]
fn uuid_is_replaced() {
    let uuid = "550e8400-e29b-41d4-a716-446655440000";
    let s = normalize_aggressive(&format!("request {} failed", uuid));
    assert!(s.contains("<uuid>"));
    assert!(!s.contains("550e8400"));
}

#[test]
fn path_is_replaced() {
    let s = normalize_aggressive("cannot open /home/miirr/project/file.log");
    assert!(s.contains("<path>"));
    assert!(!s.contains("miirr"));
}

#[test]
fn long_hex_is_replaced() {
    let s = normalize_aggressive("commit abcdef1234 not found");
    assert!(s.contains("<hex>"));
    assert!(!s.contains("abcdef1234"));
}

#[test]
fn long_number_is_replaced() {
    let s = normalize_aggressive("ran for 12345 seconds");
    assert!(s.contains("<num>"));
    assert!(!s.contains("12345"));
}

#[test]
fn short_numbers_survive() {
    let s = normalize_aggressive("exit 1 on line 42");
    assert!(s.contains("42"), "got: {:?}", s);
    assert!(s.contains("1"), "got: {:?}", s);
}

#[test]
fn lowercase_and_whitespace_collapse() {
    let s = normalize_aggressive("  Hello\t\tWORLD  ");
    assert_eq!(s, "hello world");
}

#[test]
fn identical_inputs_produce_identical_output() {
    let a = normalize_aggressive("FileNotFoundError: /home/x/file-123.log");
    let b = normalize_aggressive("FileNotFoundError: /home/x/file-123.log");
    assert_eq!(a, b);
}

#[test]
fn constitution_example_normalises_as_documented() {
    let raw = "FileNotFoundError: /home/miirr/project/foo/tmp/abc-123.log not found";
    let norm = normalize_aggressive(raw);
    assert_eq!(norm, "filenotfounderror: <path> not found");
}

#[test]
fn normalisation_patterns_all_compile() {
    assert!(normalization_patterns_compile());
    assert_eq!(try_normalize_aggressive(" A  B ").as_deref(), Some("a b"));
}

// ---- lapse ----

fn make_lesson(level: Level, idle_days: i64, missed_hooks: u32, now: i64) -> LessonActivity {
    LessonActivity { level, missed_hook_count: missed_hooks, last_seen: now - idle_days * DAY_MS }
}

const NOW: i64 = 1_776_000_000_000;

#[test]
fn lapse_threshold_values_match_constitution() {
    assert_eq!(lapse_threshold(Level::Info), Some(50));
    assert_eq!(lapse_threshold(Level::Low), Some(50));
    assert_eq!(lapse_threshold(Level::Medium), Some(200));
    assert_eq!(lapse_threshold(Level::High), Some(200));
    assert_eq!(lapse_threshold(Level::Critical), None);
}

#[test]
fn lapse_score_is_hooks_plus_ten_days() {
    let lesson = make_lesson(Level::Low, 3, 5, NOW);
    let score = compute_lapse_score(&lesson, NOW);
    assert!((30..=40).contains(&score), "got {}", score);
    assert_eq!(score, 35);
}

#[test]
fn should_lapse_triggers_for_level1_past_threshold() {
    let lesson = make_lesson(Level::Info, 6, 0, NOW);
    assert!(should_lapse(&lesson, NOW));
}

#[test]
fn should_lapse_silent_for_level1_under_threshold() {
    let lesson = make_lesson(Level::Info, 3, 5, NOW);
    assert!(!should_lapse(&lesson, NOW));
}

#[test]
fn should_lapse_triggers_for_level3_past_two_hundred() {
    let lesson = make_lesson(Level::Medium, 21, 0, NOW);
    assert!(should_lapse(&lesson, NOW));
}

#[test]
fn critical_never_lapses() {
    let lesson = make_lesson(Level::Critical, 365, 1000, NOW);
    assert!(!should_lapse(&lesson, NOW));
}

#[test]
fn negative_idle_clamps_to_zero() {
    let mut lesson = make_lesson(Level::Low, 0, 0, NOW);
    lesson.last_seen = NOW + DAY_MS;
    let score = compute_lapse_score(&lesson, NOW);
    assert_eq!(score, 0);
}

#[test]
fn partial_days_do_not_count() {
    let lesson = LessonActivity { level: Level::Low, missed_hook_count: 0, last_seen: NOW - (2 * DAY_MS - 1) };
    assert_eq!(compute_lapse_score(&lesson, NOW), 10);
    let lesson = LessonActivity { level: Level::Low, missed_hook_count: 50, last_seen: NOW };
    assert!(should_lapse(&lesson, NOW));
    let lesson = LessonActivity { level: Level::High, missed_hook_count: 199, last_seen: NOW };
    assert!(!should_lapse(&lesson, NOW));
}

#[test]
fn lapse_stays_once_reached() {
    let lesson = make_lesson(Level::Info, 5, 0, NOW);
    assert!(should_lapse(&lesson, NOW));
    assert!(should_lapse(&lesson, NOW + 10 * DAY_MS));
    let more = LessonActivity { missed_hook_count: 900, ..lesson };
    assert!(should_lapse(&more, NOW));
}

// ---- vector store ----

#[test]
fn integrity_report_health() {
    let ok = IntegrityReport { total_vectors: 3, index_consistent: true, generation_match: true, norm_anomalies: 0 };
    assert!(ok.is_healthy());
    assert!(!IntegrityReport { norm_anomalies: 1, ..ok }.is_healthy());
    assert!(!IntegrityReport { generation_match: false, ..ok }.is_healthy());
    assert!(!IntegrityReport { index_consistent: false, ..ok }.is_healthy());
}

#[test]
fn milestone_b_backends_are_refused() {
    let e = SqliteVecStore::new().err().unwrap();
    assert_eq!(e, StoreError::SqliteVecNotActive);
    assert!(e.to_string().contains("Milestone B"));
    let e = UsearchStore::new().err().unwrap();
    assert_eq!(e, StoreError::UsearchNotActive);
    assert!(e.to_string().starts_with("UsearchStore activates"));
}

#[test]
fn header_roundtrip_and_layout() {
    let h = encode_header(2, 0x0102_0304_0506_0708);
    assert_eq!(h.len(), HEADER_SIZE);
    assert_eq!(&h[0..4], b"MYEV");
    assert_eq!(&h[4..6], &1u16.to_le_bytes());
    assert_eq!(&h[6..8], &(EMBEDDING_DIM as u16).to_le_bytes());
    assert_eq!(&h[8..12], &2u32.to_le_bytes());
    assert_eq!(&h[12..20], &0x0102_0304_0506_0708u64.to_le_bytes());
    assert!(h[20..32].iter().all(|b| *b == 0));
    assert_eq!(decode_header(&h), Ok(VectorsHeader { count: 2, generation: 0x0102_0304_0506_0708 }));
    assert_eq!(payload_bytes(2), 2 * 384 * 4);
}

#[test]
fn header_errors() {
    let mut h = encode_header(0, 0);
    assert_eq!(decode_header(&h[0..31]), Err(HeaderError::Truncated));
    h[4] = 2;
    assert_eq!(decode_header(&h), Err(HeaderError::UnsupportedVersion(2)));
    h[4] = 1;
    h[6] = 0;
    h[7] = 2;
    assert_eq!(decode_header(&h), Err(HeaderError::DimensionMismatch(512)));
    h[0] = b'X';
    assert_eq!(decode_header(&h), Err(HeaderError::BadMagic));
}

// ---- Tier 2 / Tier 3 ----

#[test]
fn tier3_disabled_never_merges() {
    assert_eq!(judge(false, "a", "b"), Ok(false));
    let e = judge(true, "a", "b").unwrap_err();
    assert_eq!(e, Tier3Error::DispatchNotImplemented);
    assert_eq!(e.to_string(), "tier3 Milestone A dispatch path not yet implemented");
    assert_ne!(Tier2Decision::AutoMerge, Tier2Decision::NewLesson);
}

// ---- row bookkeeping of the vector store ----

use myth::common::LessonId;
use myth::identity::rows::VectorRows;
use std::collections::HashMap;

#[test]
fn rows_upsert_then_update_keeps_one_row() {
    let mut s: VectorRows<u32> = VectorRows::new();
    assert!(s.is_empty());
    assert_eq!(s.generation(), 0);
    let id = LessonId(11);
    s.upsert(id, 5);
    s.upsert(id, 6);
    assert_eq!(s.len(), 1);
    assert_eq!(s.generation(), 2);
    assert_eq!(s.row_of(id), Some(0));
    assert_eq!(s.rows(), &vec![6]);
    for i in 0..10u128 {
        s.upsert(LessonId(100 + i), i as u32);
    }
    assert_eq!(s.len(), 11);
    assert_eq!(s.generation(), 12);
}

#[test]
fn rows_delete_moves_last_row_into_place() {
    let mut s: VectorRows<u32> = VectorRows::new();
    let (a, b, c) = (LessonId(1), LessonId(2), LessonId(3));
    s.upsert(a, 10);
    s.upsert(b, 20);
    s.upsert(c, 30);
    assert!(s.delete(a));
    assert_eq!(s.rows(), &vec![30, 20]);
    assert_eq!(s.row_of(a), None);
    assert_eq!(s.row_of(c), Some(0));
    assert_eq!(s.row_of(b), Some(1));
    assert_eq!(s.generation(), 4);
    assert!(!s.delete(a));
    assert_eq!(s.generation(), 4);
    assert!(s.delete(b));
    assert_eq!(s.rows(), &vec![30]);
    assert_eq!(s.row_owners(), vec![Some(c)]);
    assert!(s.index_consistent());
}

#[test]
fn rows_reopened_without_index_have_no_owners() {
    let mut s: VectorRows<u32> = VectorRows::from_rows(vec![3, 7], 9);
    assert_eq!(s.len(), 2);
    assert_eq!(s.generation(), 9);
    assert_eq!(s.row_owners(), vec![None, None]);
    let mut map = HashMap::new();
    map.insert(5u128, 0usize);
    map.insert(6u128, 1usize);
    s.load_index(map);
    assert_eq!(s.row_owners(), vec![Some(LessonId(5)), Some(LessonId(6))]);
    let mut bad = HashMap::new();
    bad.insert(5u128, 4usize);
    s.load_index(bad);
    assert!(!s.index_consistent());
}
