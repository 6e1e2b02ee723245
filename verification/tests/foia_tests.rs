use newsroom_agent::calendar::{add_business_days, calendar_days_between, day_of_week};
use newsroom_agent::foia::{is_foia_overdue, FoiaRequest, FOIA_STATUSES, FOIA_SUBCOMMANDS};

#[test]
fn foia_subcommands_constant() {
    assert!(FOIA_SUBCOMMANDS.contains(&"file"));
    assert!(FOIA_SUBCOMMANDS.contains(&"list"));
    assert!(FOIA_SUBCOMMANDS.contains(&"status"));
    assert!(FOIA_SUBCOMMANDS.contains(&"update"));
    assert!(FOIA_SUBCOMMANDS.contains(&"remind"));
    assert_eq!(FOIA_SUBCOMMANDS.len(), 5);
}

#[test]
fn add_business_days_skips_weekends() {
    let result = add_business_days("2026-03-23", 10);
    assert_eq!(result, Some("2026-04-06".to_string()));
}

#[test]
fn add_business_days_from_friday() {
    let result = add_business_days("2026-03-27", 1);
    assert_eq!(result, Some("2026-03-30".to_string()));
}

#[test]
fn add_business_days_zero() {
    let result = add_business_days("2026-03-23", 0);
    assert_eq!(result, Some("2026-03-23".to_string()));
}

#[test]
fn add_business_days_invalid_date() {
    assert!(add_business_days("bad-date", 5).is_none());
}

#[test]
fn calendar_days_between_same_day() {
    assert_eq!(calendar_days_between("2026-03-28", "2026-03-28"), Some(0));
}

#[test]
fn calendar_days_between_forward() {
    assert_eq!(calendar_days_between("2026-03-28", "2026-04-07"), Some(10));
}

#[test]
fn calendar_days_between_backward() {
    assert_eq!(calendar_days_between("2026-04-07", "2026-03-28"), Some(-10));
}

#[test]
fn foia_overdue_detection() {
    let req = FoiaRequest {
        id: 1,
        agency: "국방부".to_string(),
        content: "무기 도입 계약서".to_string(),
        status: "접수".to_string(),
        filed_date: "2026-01-01".to_string(),
        deadline_date: "2026-01-15".to_string(),
    };
    assert!(is_foia_overdue(&req, "2026-03-28"));
    assert!(!is_foia_overdue(&req, "2026-01-10"));
    let done = FoiaRequest {
        status: "응답완료".to_string(),
        ..req.clone()
    };
    assert!(!is_foia_overdue(&done, "2026-03-28"));
}

#[test]
fn foia_deadline_calculation_10_business_days() {
    let result = add_business_days("2026-03-28", 10);
    assert_eq!(result, Some("2026-04-10".to_string()));
}

#[test]
fn foia_valid_statuses() {
    assert!(FOIA_STATUSES.contains(&"접수"));
    assert!(FOIA_STATUSES.contains(&"처리중"));
    assert!(FOIA_STATUSES.contains(&"연장"));
    assert!(FOIA_STATUSES.contains(&"응답완료"));
    assert!(FOIA_STATUSES.contains(&"이의신청"));
    assert!(FOIA_STATUSES.contains(&"거부"));
    assert_eq!(FOIA_STATUSES.len(), 6);
}

#[test]
fn foia_day_of_week_known_dates() {
    assert_eq!(day_of_week("2026-03-28"), Some(5));
    assert_eq!(day_of_week("2026-03-23"), Some(0));
    assert_eq!(day_of_week("2026-03-29"), Some(6));
}
