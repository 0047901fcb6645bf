use myth::calendar::iso_from_millis;
use myth::bounded::{tail_utf8, truncate_utf8};
use myth::common::{
    format_uuid, parse_claude_session_id, Level, LessonId, ReminderId, SessionId, SessionIdError,
};
use myth::numeric::{parse_i32, parse_u32};
use myth::text::{collapse_whitespace, split_words, str_contains, trim_str};

fn chars(s: &str) -> Vec<char> {
    s.chars().collect()
}

#[test]
fn uuid_text_is_hyphenated_lowercase() {
    assert_eq!(format_uuid(0), "00000000-0000-0000-0000-000000000000");
    assert_eq!(format_uuid(0xABCDEF00_1122_3344_5566_778899AABBCC), "abcdef00-1122-3344-5566-778899aabbcc");
    assert_eq!(SessionId(u128::MAX).to_string(), "ffffffff-ffff-ffff-ffff-ffffffffffff");
}

#[test]
fn fresh_ids_are_version_4() {
    for _ in 0..8 {
        let id = SessionId::new();
        assert_eq!((id.0 >> 76) & 0xf, 4);
        assert_eq!((id.0 >> 62) & 0x3, 2);
        let text = id.to_string();
        assert_eq!(text.len(), 36);
        assert_eq!(&text[14..15], "4");
    }
    assert_ne!(LessonId::new(), LessonId::new());
    assert_ne!(ReminderId::new(), ReminderId::new());
}

#[test]
fn session_id_roundtrips_through_text() {
    let id = SessionId::new();
    assert_eq!(parse_claude_session_id(&id.to_string()), Ok(id));
    let parsed = parse_claude_session_id("550e8400-e29b-41d4-a716-446655440000").unwrap();
    assert_eq!(parsed.to_string(), "550e8400-e29b-41d4-a716-446655440000");
    assert_eq!(
        parse_claude_session_id("not-a-uuid"),
        Err(SessionIdError::NotAUuid("not-a-uuid".into()))
    );
}

#[test]
fn level_numbers() {
    assert_eq!(Level::Info.as_u8(), 1);
    assert_eq!(Level::Medium.as_u8(), 3);
    assert_eq!(Level::Critical.as_u8(), 5);
}

#[test]
fn numbers_parse_like_std() {
    assert_eq!(parse_u32(&chars("42")), Some(42));
    assert_eq!(parse_u32(&chars("+7")), Some(7));
    assert_eq!(parse_u32(&chars("4294967295")), Some(u32::MAX));
    assert_eq!(parse_u32(&chars("4294967296")), None);
    assert_eq!(parse_u32(&chars("")), None);
    assert_eq!(parse_u32(&chars("-1")), None);
    assert_eq!(parse_i32(&chars("-2147483648")), Some(i32::MIN));
    assert_eq!(parse_i32(&chars("2147483648")), None);
    assert_eq!(parse_i32(&chars("-")), None);
}

#[test]
fn text_helpers() {
    assert_eq!(collapse_whitespace("  a \t b\n\nc  "), "a b c");
    assert_eq!(trim_str("\u{3000} x y \n"), "x y");
    let w: Vec<String> = split_words(" ab  c\td ").iter().map(|v| v.iter().collect()).collect();
    assert_eq!(w, vec!["ab", "c", "d"]);
    assert!(str_contains("hello", "ll"));
    assert!(str_contains("hello", ""));
    assert!(!str_contains("he", "hello"));
}

#[test]
fn byte_budget_cuts() {
    assert_eq!(truncate_utf8("abcdef", 4, ".."), "ab..");
    assert_eq!(truncate_utf8("abc", 4, ".."), "abc");
    assert_eq!(truncate_utf8("ééé", 5, "!"), "éé!");
    assert_eq!(truncate_utf8("abcdef", 1, "..."), ".");
    assert_eq!(truncate_utf8("abcdef", 0, "..."), "");
    assert_eq!(truncate_utf8("abcdef", 2, "é!"), "é");
    assert_eq!(truncate_utf8("abcdef", 1, "é!"), "");
    assert_eq!(tail_utf8("abcdef", 2), "ef");
    assert_eq!(tail_utf8("éé", 3), "é");
}

#[test]
fn iso_text_of_unix_millis() {
    assert_eq!(iso_from_millis(0), "1970-01-01T00:00:00.000Z");
    assert_eq!(iso_from_millis(-1), "1969-12-31T23:59:59.999Z");
    assert_eq!(iso_from_millis(1_713_700_800_123), "2024-04-21T12:00:00.123Z");
    assert_eq!(iso_from_millis(951_782_400_000), "2000-02-29T00:00:00.000Z");
    assert_eq!(iso_from_millis(-62_135_596_800_000), "0001-01-01T00:00:00.000Z");
    assert_eq!(iso_from_millis(-62_167_219_200_001), "-001-12-31T23:59:59.999Z");
    assert_eq!(iso_from_millis(253_402_300_799_999), "9999-12-31T23:59:59.999Z");
    assert_eq!(iso_from_millis(i64::MAX), "292278994-08-17T07:12:55.807Z");
    assert_eq!(iso_from_millis(i64::MIN), "-292275055-05-16T16:47:04.192Z");
}
