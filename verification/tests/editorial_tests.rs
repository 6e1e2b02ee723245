use newsroom_agent::editorial::{
    expire_claims, is_claim_expired, is_valid_time, parse_collab_note_args,
    parse_collab_start_args, parse_coverage_claim_args, parse_desk_assign_args,
    time_diff_minutes, CoverageClaim,
};

#[test]
fn desk_parse_assign_args_basic() {
    let result = parse_desk_assign_args("김기자 국회 취재");
    assert!(result.is_some());
    let (reporter, content, deadline) = result.unwrap();
    assert_eq!(reporter, "김기자");
    assert_eq!(content, "국회 취재");
    assert!(deadline.is_none());
}

#[test]
fn desk_parse_assign_args_with_deadline() {
    let result = parse_desk_assign_args("이기자 반도체 취재 --deadline 15:30");
    assert!(result.is_some());
    let (reporter, content, deadline) = result.unwrap();
    assert_eq!(reporter, "이기자");
    assert_eq!(content, "반도체 취재");
    assert_eq!(deadline, Some("15:30".to_string()));
}

#[test]
fn desk_parse_assign_args_missing_content() {
    let result = parse_desk_assign_args("김기자");
    assert!(result.is_none());
}

#[test]
fn parse_desk_assign_args_deadline_empty_value() {
    let result = parse_desk_assign_args("김기자 반도체 취재 --deadline");
    assert!(result.is_some());
    let (reporter, content, deadline) = result.unwrap();
    assert_eq!(reporter, "김기자");
    assert_eq!(content, "반도체 취재");
    assert!(deadline.is_none());
}

#[test]
fn parse_desk_assign_args_empty() {
    let result = parse_desk_assign_args("");
    assert!(result.is_none());
}

#[test]
fn is_valid_time_checks() {
    assert!(is_valid_time("00:00"));
    assert!(is_valid_time("23:59"));
    assert!(is_valid_time("15:30"));
    assert!(!is_valid_time("24:00"));
    assert!(!is_valid_time("12:60"));
    assert!(!is_valid_time("1:30"));
    assert!(!is_valid_time("abc"));
    assert!(!is_valid_time("12345"));
}

#[test]
fn collab_parse_start_args() {
    let (name, reporters) = parse_collab_start_args("반도체 --reporters 김기자,이기자");
    assert_eq!(name, "반도체");
    assert_eq!(reporters, vec!["김기자", "이기자"]);
}

#[test]
fn collab_parse_start_args_no_reporters() {
    let (name, reporters) = parse_collab_start_args("국회취재");
    assert_eq!(name, "국회취재");
    assert!(reporters.is_empty());
}

#[test]
fn collab_parse_note_args() {
    let result = parse_collab_note_args("반도체 삼성 공장 가동률 확인 --reporter 김기자");
    assert!(result.is_some());
    let (project, content, reporter) = result.unwrap();
    assert_eq!(project, "반도체");
    assert_eq!(content, "삼성 공장 가동률 확인");
    assert_eq!(reporter, "김기자");
}

#[test]
fn collab_parse_note_args_no_reporter() {
    let result = parse_collab_note_args("반도체 취재 메모 내용");
    assert!(result.is_some());
    let (project, content, reporter) = result.unwrap();
    assert_eq!(project, "반도체");
    assert_eq!(content, "취재 메모 내용");
    assert!(reporter.is_empty());
}

#[test]
fn collab_parse_note_args_missing_content() {
    let result = parse_collab_note_args("반도체");
    assert!(result.is_none());
}

#[test]
fn coverage_expire_claims() {
    let mut claims = vec![
        CoverageClaim {
            topic: "속보1".to_string(),
            reporter: "A".to_string(),
            until: Some("14:00".to_string()),
            active: true,
            created_at: "2026-03-20T13:00:00".to_string(),
        },
        CoverageClaim {
            topic: "속보2".to_string(),
            reporter: "B".to_string(),
            until: Some("20:00".to_string()),
            active: true,
            created_at: "2026-03-20T13:00:00".to_string(),
        },
        CoverageClaim {
            topic: "속보3".to_string(),
            reporter: "C".to_string(),
            until: None,
            active: true,
            created_at: "2026-03-20T13:00:00".to_string(),
        },
    ];

    let expired = expire_claims(&mut claims, "15:00");
    assert_eq!(expired, 1);
    assert!(!claims[0].active);
    assert!(claims[1].active);
    assert!(claims[2].active);
}

#[test]
fn coverage_parse_claim_args_full() {
    let (topic, reporter, until) =
        parse_coverage_claim_args("국회 본회의 --reporter 김기자 --until 18:00");
    assert_eq!(topic, "국회 본회의");
    assert_eq!(reporter, "김기자");
    assert_eq!(until, Some("18:00".to_string()));
}

#[test]
fn coverage_parse_claim_args_topic_only() {
    let (topic, reporter, until) = parse_coverage_claim_args("반도체 실적");
    assert_eq!(topic, "반도체 실적");
    assert!(reporter.is_empty());
    assert!(until.is_none());
}

#[test]
fn coverage_parse_claim_args_with_reporter_only() {
    let (topic, reporter, until) = parse_coverage_claim_args("환율 --reporter 박기자");
    assert_eq!(topic, "환율");
    assert_eq!(reporter, "박기자");
    assert!(until.is_none());
}

#[test]
fn coverage_time_diff_minutes() {
    assert_eq!(time_diff_minutes("18:00", "14:00"), Some(240));
    assert_eq!(time_diff_minutes("14:30", "14:00"), Some(30));
    assert_eq!(time_diff_minutes("13:00", "14:00"), Some(-60));
}

#[test]
fn coverage_is_claim_expired_checks() {
    let claim_with_until = CoverageClaim {
        topic: "test".to_string(),
        reporter: "r".to_string(),
        until: Some("15:00".to_string()),
        active: true,
        created_at: "".to_string(),
    };
    assert!(is_claim_expired(&claim_with_until, "15:00"));
    assert!(is_claim_expired(&claim_with_until, "16:00"));
    assert!(!is_claim_expired(&claim_with_until, "14:59"));

    let claim_no_until = CoverageClaim {
        topic: "test".to_string(),
        reporter: "r".to_string(),
        until: None,
        active: true,
        created_at: "".to_string(),
    };
    assert!(!is_claim_expired(&claim_no_until, "23:59"));
}

#[test]
fn time_diff_minutes_invalid_input() {
    assert!(time_diff_minutes("invalid", "14:00").is_none());
    assert!(time_diff_minutes("14:00", "bad").is_none());
    assert!(time_diff_minutes("", "").is_none());
}

#[test]
fn time_diff_minutes_zero_diff() {
    assert_eq!(time_diff_minutes("14:00", "14:00"), Some(0));
}
