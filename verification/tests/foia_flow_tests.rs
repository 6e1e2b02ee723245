use newsroom_agent::foia::{
    find_foia, foia_detail, foia_list_line, foia_path, foia_reminders, is_foia_status, new_foia_request,
    parse_foia_status_number, update_foia, FoiaError, FoiaRequest, FOIA_FILE,
};

fn req(id: u32, agency: &str, content: &str, status: &str, filed: &str, deadline: &str) -> FoiaRequest {
    FoiaRequest {
        id,
        agency: agency.to_string(),
        content: content.to_string(),
        status: status.to_string(),
        filed_date: filed.to_string(),
        deadline_date: deadline.to_string(),
    }
}

#[test]
fn foia_file_and_list() {
    let requests: Vec<FoiaRequest> = Vec::new();
    let r = new_foia_request(&requests, "국토교통부 서울시 공시지가 산출근거 자료", "2026-03-23").unwrap();
    assert_eq!(r.id, 1);
    assert_eq!(r.agency, "국토교통부");
    assert_eq!(r.content, "서울시 공시지가 산출근거 자료");
    assert_eq!(r.status, "접수");
    assert_eq!(r.filed_date, "2026-03-23");
    assert_eq!(r.deadline_date, "2026-04-06");
    let line = foia_list_line(&r, "2026-03-24");
    assert!(line.contains("[1] 국토교통부 — 서울시 공시지가 산출근거 자료"));
    assert!(line.contains("접수"));
    assert!(line.contains("(기한: 2026-04-06)"));
}

#[test]
fn foia_status_update() {
    let mut requests = vec![req(1, "환경부", "폐기물 처리 현황", "접수", "2026-03-20", "2026-04-03")];
    let prev = update_foia(&mut requests, "1 처리중").unwrap();
    assert_eq!(prev, "접수");
    assert_eq!(requests[0].status, "처리중");
    assert_eq!(requests[0].deadline_date, "2026-04-03");
}

#[test]
fn foia_extension_moves_deadline() {
    let mut requests = vec![req(1, "환경부", "폐기물 처리 현황", "접수", "2026-03-09", "2026-03-23")];
    update_foia(&mut requests, "1 연장").unwrap();
    assert_eq!(requests[0].status, "연장");
    assert_eq!(requests[0].deadline_date, "2026-04-06");
}

#[test]
fn foia_update_errors() {
    let mut requests = vec![req(1, "환경부", "폐기물", "접수", "2026-03-20", "2026-04-03")];
    assert_eq!(update_foia(&mut requests, ""), Err(FoiaError::Usage));
    assert_eq!(update_foia(&mut requests, "1"), Err(FoiaError::MissingParts));
    assert_eq!(update_foia(&mut requests, "x 처리중"), Err(FoiaError::InvalidNumber));
    assert_eq!(update_foia(&mut requests, "1 보류"), Err(FoiaError::InvalidStatus));
    assert_eq!(update_foia(&mut requests, "9 처리중"), Err(FoiaError::NotFound));
    assert_eq!(requests[0].status, "접수");
}

#[test]
fn foia_new_request_numbering_and_errors() {
    let requests = vec![
        req(3, "환경부", "A", "접수", "2026-03-20", "2026-04-03"),
        req(7, "국방부", "B", "접수", "2026-03-20", "2026-04-03"),
    ];
    let r = new_foia_request(&requests, "교육부 학교 급식 예산", "2026-03-23").unwrap();
    assert_eq!(r.id, 8);
    assert_eq!(new_foia_request(&requests, "", "2026-03-23").unwrap_err(), FoiaError::Usage);
    assert_eq!(new_foia_request(&requests, "교육부", "2026-03-23").unwrap_err(), FoiaError::MissingParts);
    let bad_day = new_foia_request(&requests, "교육부 자료", "어제").unwrap();
    assert_eq!(bad_day.deadline_date, "계산실패");
}

#[test]
fn foia_filed_request_is_not_overdue_on_filing_day() {
    let r = new_foia_request(&Vec::new(), "국토교통부 자료", "2026-03-23").unwrap();
    let (late, soon) = foia_reminders(&vec![r], "2026-03-23");
    assert!(late.is_empty());
    assert!(soon.is_empty());
}

#[test]
fn foia_status_number_parsing() {
    assert_eq!(parse_foia_status_number("12"), Ok(12));
    assert_eq!(parse_foia_status_number(" 3 "), Ok(3));
    assert_eq!(parse_foia_status_number(""), Err(FoiaError::Usage));
    assert_eq!(parse_foia_status_number("abc"), Err(FoiaError::InvalidNumber));
    assert_eq!(parse_foia_status_number("99999999999"), Err(FoiaError::InvalidNumber));
}

#[test]
fn foia_find_and_statuses() {
    let requests = vec![
        req(2, "환경부", "A", "접수", "2026-03-20", "2026-04-03"),
        req(5, "국방부", "B", "접수", "2026-03-20", "2026-04-03"),
    ];
    assert_eq!(find_foia(&requests, 5), Some(1));
    assert_eq!(find_foia(&requests, 4), None);
    assert!(is_foia_status("이의신청"));
    assert!(!is_foia_status("보류"));
    assert_eq!(foia_path(), FOIA_FILE);
}

#[test]
fn foia_detail_text() {
    let r = req(4, "국방부", "무기 도입 계약서", "접수", "2026-03-01", "2026-03-13");
    let d = foia_detail(&r, "2026-03-20");
    assert!(d.contains("정보공개청구 #4"));
    assert!(d.contains("기관: 국방부"));
    assert!(d.contains("경과일: 19일"));
    assert!(d.contains("기한 초과 (7일)"));
    let done = req(4, "국방부", "무기 도입 계약서", "응답완료", "2026-03-01", "2026-03-13");
    assert!(foia_detail(&done, "2026-03-20").contains("완료됨"));
    let open = req(4, "국방부", "무기", "접수", "2026-03-01", "2026-03-25");
    assert!(foia_detail(&open, "2026-03-20").contains("남은 기한: 5일"));
}

#[test]
fn foia_reminder_lists() {
    let requests = vec![
        req(1, "A", "a", "접수", "2026-03-01", "2026-03-10"),
        req(2, "B", "b", "처리중", "2026-03-01", "2026-03-22"),
        req(3, "C", "c", "응답완료", "2026-03-01", "2026-03-10"),
        req(4, "D", "d", "접수", "2026-03-01", "2026-04-30"),
    ];
    let (late, soon) = foia_reminders(&requests, "2026-03-20");
    assert_eq!(late, vec![(0, -10)]);
    assert_eq!(soon, vec![(1, 2)]);
}
