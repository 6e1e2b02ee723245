use newsroom_agent::tracking::{
    contact_file_for, days_until, extract_flag_value, is_valid_date, last_contact_secs,
    notes_file_for_date, parse_contact_log_args, parse_follow_add_args, parse_note_add_args,
    parse_timestamp_secs, stale_contact, CONTACTS_DIR,
};

#[test]
fn follow_parse_add_args_topic_only() {
    let (topic, due) = parse_follow_add_args("국회 예산안 후속");
    assert_eq!(topic, "국회 예산안 후속");
    assert!(due.is_none());
}

#[test]
fn follow_parse_add_args_with_due() {
    let (topic, due) = parse_follow_add_args("국회 예산안 후속 --due 2026-03-25");
    assert_eq!(topic, "국회 예산안 후속");
    assert_eq!(due.unwrap(), "2026-03-25");
}

#[test]
fn follow_parse_add_args_empty_due() {
    let (topic, due) = parse_follow_add_args("주제 --due   ");
    assert_eq!(topic, "주제");
    assert!(due.is_none());
}

#[test]
fn follow_is_valid_date() {
    assert!(is_valid_date("2026-03-25"));
    assert!(is_valid_date("2026-12-01"));
    assert!(!is_valid_date("2026-13-01"));
    assert!(!is_valid_date("2026-00-01"));
    assert!(!is_valid_date("20260325"));
    assert!(!is_valid_date("abc"));
}

#[test]
fn follow_days_until_future() {
    assert_eq!(days_until("2026-03-25", "2026-03-20"), Some(5));
}

#[test]
fn follow_days_until_past() {
    assert_eq!(days_until("2026-03-18", "2026-03-20"), Some(-2));
}

#[test]
fn follow_days_until_today() {
    assert_eq!(days_until("2026-03-20", "2026-03-20"), Some(0));
}

#[test]
fn days_until_across_years_and_invalid() {
    assert_eq!(days_until("2025-01-01", "2024-01-01"), Some(366));
    assert_eq!(days_until("1970-01-01", "1969-12-31"), Some(1));
    assert_eq!(days_until("0000-03-01", "0000-02-29"), Some(1));
    assert_eq!(days_until("2026-02-30", "2026-03-01"), Some(1));
    assert_eq!(days_until("2026-13-01", "2026-03-01"), None);
    assert_eq!(days_until("2026-03-01", "x"), None);
}

#[test]
fn parse_note_add_args_simple() {
    let (content, source, topic) = parse_note_add_args("간단한 메모입니다");
    assert_eq!(content, "간단한 메모입니다");
    assert_eq!(source, None);
    assert_eq!(topic, None);
}

#[test]
fn parse_note_add_args_with_flags() {
    let (content, source, topic) =
        parse_note_add_args("--source 홍길동 --topic 반도체 \"삼성 신규 라인\"");
    assert_eq!(content, "삼성 신규 라인");
    assert_eq!(source, Some("홍길동".to_string()));
    assert_eq!(topic, Some("반도체".to_string()));
}

#[test]
fn parse_note_add_args_flags_after_content() {
    let (content, source, topic) = parse_note_add_args("김OO 과장: 다음 주 발표 예정");
    assert_eq!(content, "김OO 과장: 다음 주 발표 예정");
    assert_eq!(source, None);
    assert_eq!(topic, None);
}

#[test]
fn parse_note_add_args_quoted_content() {
    let (content, source, topic) = parse_note_add_args("\"다음 주 발표 예정\"");
    assert_eq!(content, "다음 주 발표 예정");
    assert_eq!(source, None);
    assert_eq!(topic, None);
}

#[test]
fn parse_note_add_args_quoted_flag_value() {
    let (content, source, topic) = parse_note_add_args("메모 --source \"김 과장\" 끝");
    assert_eq!(content, "메모  끝");
    assert_eq!(source, Some("김 과장".to_string()));
    assert_eq!(topic, None);
}

#[test]
fn extract_flag_value_basic() {
    let (val, rest) = extract_flag_value("홍길동 나머지");
    assert_eq!(val, "홍길동");
    assert_eq!(rest, "나머지");
}

#[test]
fn extract_flag_value_empty() {
    let (val, rest) = extract_flag_value("");
    assert!(val.is_empty());
    assert!(rest.is_empty());
}

#[test]
fn extract_flag_value_next_flag() {
    let (val, rest) = extract_flag_value("--topic 반도체");
    assert!(val.is_empty());
    assert_eq!(rest, "--topic 반도체");
}

#[test]
fn notes_file_for_date_path() {
    assert_eq!(notes_file_for_date("2026-03-22"), ".journalist/notes/2026-03-22.jsonl");
}

#[test]
fn contact_file_for_sanitizes_name() {
    let path = contact_file_for("홍길동");
    assert!(path.ends_with(".jsonl"));
    assert!(path.starts_with(CONTACTS_DIR));

    // Spaces become underscores
    let path2 = contact_file_for("홍 길동");
    assert!(path2.contains('_'));
    assert_eq!(path2, ".journalist/contacts/홍_길동.jsonl");
}

#[test]
fn parse_contact_log_args_basic() {
    let (name, summary) = parse_contact_log_args("홍길동 \"반도체 관련 통화\"");
    assert_eq!(name, "홍길동");
    assert_eq!(summary, "반도체 관련 통화");
}

#[test]
fn parse_contact_log_args_no_quotes() {
    let (name, summary) = parse_contact_log_args("홍길동 반도체 관련 통화");
    assert_eq!(name, "홍길동");
    assert_eq!(summary, "반도체 관련 통화");
}

#[test]
fn parse_contact_log_args_empty() {
    let (name, summary) = parse_contact_log_args("");
    assert!(name.is_empty());
    assert!(summary.is_empty());
}

#[test]
fn parse_contact_log_args_name_only() {
    let (name, summary) = parse_contact_log_args("홍길동");
    assert_eq!(name, "홍길동");
    assert!(summary.is_empty());
}

#[test]
fn parse_timestamp_secs_valid() {
    let secs = parse_timestamp_secs("2026-03-22T10:00:00");
    assert!(secs.is_some());
    let secs = secs.unwrap();
    assert!(secs > 1_700_000_000); // sanity check: after 2023
}

#[test]
fn parse_timestamp_secs_exact_values() {
    assert_eq!(parse_timestamp_secs("1970-01-01"), Some(0));
    assert_eq!(parse_timestamp_secs("1970-01-02T00:00:01"), Some(86401));
    assert_eq!(parse_timestamp_secs("2026-03-22T10:00:00"), Some(1774173600));
    assert_eq!(parse_timestamp_secs("2024-03-01"), Some(1709251200));
}

#[test]
fn parse_timestamp_secs_invalid() {
    assert!(parse_timestamp_secs("").is_none());
    assert!(parse_timestamp_secs("abc").is_none());
}

#[test]
fn stale_detection_no_logs() {
    let last = last_contact_secs(&Vec::new());
    assert!(last.is_none()); // Never contacted = stale
    assert_eq!(stale_contact(last, 1_800_000_000), Some("접촉 기록 없음".to_string()));
}

#[test]
fn stale_detection_old_log() {
    let logs = vec!["2025-01-01T10:00:00".to_string(), "bad".to_string()];
    let last = last_contact_secs(&logs).unwrap();
    let now_secs: u64 = 1_800_000_000;
    let thirty_days = 30 * 86400;
    assert!(last < now_secs.saturating_sub(thirty_days));
    let recent = last + 86400;
    assert_eq!(stale_contact(Some(recent), recent + 3600), None);
    assert_eq!(
        stale_contact(Some(0), 31 * 86400),
        Some("31일 전".to_string())
    );
}
