use newsroom_agent::collab::{
    add_collab_note, close_collab, collab_project_path_in, reporter_display, start_collab, CollabError,
};
use newsroom_agent::coverage::{
    coverage_matches, new_coverage_claim, release_claim, until_label, CoverageError, UNASSIGNED_REPORTER,
};
use newsroom_agent::desk::{add_desk_feedback, mark_desk_done, new_desk_assignment, new_desk_pitch, DeskError};
use newsroom_agent::editorial::{
    CollabProject, CollabStatus, CoverageClaim, DeskAssignment, DeskStatus,
};

fn desk_item(reporter: &str, content: &str, created_at: &str) -> DeskAssignment {
    DeskAssignment {
        reporter: reporter.to_string(),
        content: content.to_string(),
        deadline: None,
        status: DeskStatus::Pending,
        feedback: vec![],
        is_pitch: false,
        created_at: created_at.to_string(),
    }
}

fn claim(topic: &str, reporter: &str, until: Option<&str>, active: bool) -> CoverageClaim {
    CoverageClaim {
        topic: topic.to_string(),
        reporter: reporter.to_string(),
        until: until.map(|u| u.to_string()),
        active,
        created_at: "2026-03-20T14:00:00".to_string(),
    }
}

fn project(name: &str, reporters: &[&str], status: CollabStatus, created_at: &str) -> CollabProject {
    CollabProject {
        name: name.to_string(),
        reporters: reporters.iter().map(|r| r.to_string()).collect(),
        notes: Vec::new(),
        status,
        created_at: created_at.to_string(),
    }
}

// ── /desk ───────────────────────────────────────────────────────────

#[test]
fn desk_done_status() {
    let mut loaded = vec![desk_item("박기자", "경제 취재", "2026-03-20T10:00:00")];
    assert_eq!(loaded[0].status, DeskStatus::Pending);
    let r = mark_desk_done(&mut loaded, "1");
    assert_eq!(r, Ok(("박기자".to_string(), "경제 취재".to_string())));
    assert_eq!(loaded[0].status, DeskStatus::Done);
}

#[test]
fn desk_feedback_appends() {
    let mut loaded = vec![desk_item("김기자", "기사 수정", "2026-03-20T10:00:00")];
    assert!(add_desk_feedback(&mut loaded, "1 리드 수정 필요").is_ok());
    assert!(add_desk_feedback(&mut loaded, "1 사진 추가해주세요").is_ok());
    assert_eq!(loaded[0].feedback.len(), 2);
    assert_eq!(loaded[0].feedback[0], "리드 수정 필요");
    assert_eq!(loaded[0].feedback[1], "사진 추가해주세요");
}

#[test]
fn desk_pitch_flag() {
    let pitch = new_desk_pitch("반도체 삼성전자 실적 분석", "2026-03-20T11:00:00").unwrap();
    assert!(pitch.is_pitch);
    assert_eq!(pitch.reporter, "제안");
    assert_eq!(pitch.content, "[반도체] 삼성전자 실적 분석");
    assert_eq!(pitch.status, DeskStatus::Pending);
}

#[test]
fn desk_done_twice_is_refused() {
    let mut v = vec![
        desk_item("박기자", "경제 취재", "2026-03-20T10:00:00"),
        desk_item("김기자", "국회 취재", "2026-03-20T10:30:00"),
    ];
    assert!(mark_desk_done(&mut v, "2").is_ok());
    assert_eq!(mark_desk_done(&mut v, "2"), Err(DeskError::AlreadyDone));
    assert_eq!(v[0].status, DeskStatus::Pending);
    assert_eq!(v[1].status, DeskStatus::Done);
}

#[test]
fn desk_done_errors() {
    let mut v = vec![desk_item("박기자", "경제 취재", "2026-03-20T10:00:00")];
    assert_eq!(mark_desk_done(&mut v, ""), Err(DeskError::Usage));
    assert_eq!(mark_desk_done(&mut v, "abc"), Err(DeskError::InvalidNumber));
    assert_eq!(mark_desk_done(&mut v, "0"), Err(DeskError::InvalidNumber));
    assert_eq!(mark_desk_done(&mut v, "5"), Err(DeskError::NotFound));
    assert_eq!(v[0].status, DeskStatus::Pending);
}

#[test]
fn desk_feedback_errors() {
    let mut v = vec![desk_item("김기자", "기사 수정", "2026-03-20T10:00:00")];
    assert_eq!(add_desk_feedback(&mut v, ""), Err(DeskError::Usage));
    assert_eq!(add_desk_feedback(&mut v, "1"), Err(DeskError::Usage));
    assert_eq!(add_desk_feedback(&mut v, "x 좋아요"), Err(DeskError::InvalidNumber));
    assert_eq!(add_desk_feedback(&mut v, "3 좋아요"), Err(DeskError::NotFound));
    assert!(v[0].feedback.is_empty());
}

#[test]
fn desk_assignment_creation() {
    let a = new_desk_assignment("김기자 국회 취재 --deadline 18:00", "2026-03-20T09:00:00").unwrap();
    assert_eq!(a.reporter, "김기자");
    assert_eq!(a.content, "국회 취재");
    assert_eq!(a.deadline, Some("18:00".to_string()));
    assert!(!a.is_pitch);
    assert_eq!(a.created_at, "2026-03-20T09:00:00");
    assert_eq!(new_desk_assignment("", "t").unwrap_err(), DeskError::Usage);
    assert_eq!(new_desk_assignment("김기자", "t").unwrap_err(), DeskError::Usage);
    assert!(new_desk_assignment("김기자 취재 --deadline 25:00", "t").is_err());
}

#[test]
fn desk_pitch_errors() {
    assert_eq!(new_desk_pitch("", "t").unwrap_err(), DeskError::Usage);
    assert_eq!(new_desk_pitch("제목만", "t").unwrap_err(), DeskError::Usage);
}

// ── /collaborate ────────────────────────────────────────────────────

#[test]
fn collab_start_creates_project() {
    let p = start_collab("반도체취재 --reporters 김기자,이기자", None, "2026-03-20T14:00:00").unwrap();
    assert_eq!(p.name, "반도체취재");
    assert_eq!(p.reporters.len(), 2);
    assert_eq!(p.status, CollabStatus::Active);
    assert!(p.notes.is_empty());
    assert_eq!(p.created_at, "2026-03-20T14:00:00");
}

#[test]
fn collab_start_refuses_active_duplicate() {
    let active = project("국회취재", &[], CollabStatus::Active, "2026-03-20T10:00:00");
    let closed = project("국회취재", &[], CollabStatus::Closed, "2026-03-20T10:00:00");
    assert_eq!(start_collab("국회취재", Some(&active), "t").unwrap_err(), CollabError::AlreadyActive);
    assert!(start_collab("국회취재", Some(&closed), "t").is_ok());
    assert_eq!(start_collab("", None, "t").unwrap_err(), CollabError::Usage);
}

#[test]
fn collab_note_adds_entry() {
    let mut p = project("국회취재", &["박기자"], CollabStatus::Active, "2026-03-20T10:00:00");
    add_collab_note(&mut p, "박기자", "법안 소위 통과 확인", "2026-03-20T11:00:00").unwrap();
    assert_eq!(p.notes.len(), 1);
    assert_eq!(p.notes[0].reporter, "박기자");
    assert_eq!(p.notes[0].content, "법안 소위 통과 확인");
    assert_eq!(p.notes[0].timestamp, "2026-03-20T11:00:00");
}

#[test]
fn collab_close_marks_closed() {
    let mut p = project("경제분석", &[], CollabStatus::Active, "2026-03-20T09:00:00");
    assert_eq!(close_collab(&mut p), Ok(0));
    assert_eq!(p.status, CollabStatus::Closed);
    assert_eq!(close_collab(&mut p), Err(CollabError::Closed));
    assert_eq!(add_collab_note(&mut p, "A", "B", "C"), Err(CollabError::Closed));
    assert!(p.notes.is_empty());
}

#[test]
fn collab_multiple_notes_preserve_order() {
    let mut p = project("순서테스트", &["A기자", "B기자"], CollabStatus::Active, "2026-03-20T08:00:00");
    for i in 1..=3 {
        let reporter = format!("기자{i}");
        let content = format!("메모 {i}");
        let ts = format!("2026-03-20T{:02}:00:00", 8 + i);
        add_collab_note(&mut p, &reporter, &content, &ts).unwrap();
    }
    assert_eq!(p.notes.len(), 3);
    assert_eq!(p.notes[0].content, "메모 1");
    assert_eq!(p.notes[2].content, "메모 3");
}

#[test]
fn collab_paths_and_reporters() {
    assert_eq!(collab_project_path_in("/tmp/c", "반도체"), "/tmp/c/반도체.json");
    assert_eq!(reporter_display(""), "익명");
    assert_eq!(reporter_display("김기자"), "김기자");
}

// ── /coverage ───────────────────────────────────────────────────────

#[test]
fn coverage_release_deactivates() {
    let mut claims = vec![
        claim("반도체 실적", "이기자", None, true),
        claim("환율 동향", "박기자", Some("17:00"), true),
    ];
    assert_eq!(release_claim(&mut claims, "1"), Ok("반도체 실적".to_string()));
    assert!(!claims[0].active);
    assert!(claims[1].active);
    assert_eq!(release_claim(&mut claims, "1"), Err(CoverageError::AlreadyInactive));
}

#[test]
fn coverage_release_errors() {
    let mut claims = vec![claim("반도체 실적", "이기자", None, true)];
    assert_eq!(release_claim(&mut claims, ""), Err(CoverageError::Usage));
    assert_eq!(release_claim(&mut claims, "x"), Err(CoverageError::InvalidNumber));
    assert_eq!(release_claim(&mut claims, "0"), Err(CoverageError::InvalidNumber));
    assert_eq!(release_claim(&mut claims, "4"), Err(CoverageError::NotFound));
    assert!(claims[0].active);
}

#[test]
fn coverage_check_keyword_match() {
    let loaded = vec![
        claim("국회 본회의 표결", "김기자", None, true),
        claim("반도체 실적 발표", "이기자", None, true),
        claim("환율 동향", "박기자", None, false),
    ];
    let matches = coverage_matches(&loaded, "국회");
    assert_eq!(matches.len(), 1);
    assert_eq!(loaded[matches[0]].reporter, "김기자");
    let matches2 = coverage_matches(&loaded, "환율");
    assert!(matches2.is_empty());
}

#[test]
fn coverage_match_ignores_case() {
    let loaded = vec![claim("AI 규제 법안", "김기자", None, true)];
    assert_eq!(coverage_matches(&loaded, "ai"), vec![0]);
}

#[test]
fn coverage_new_claim() {
    let c = new_coverage_claim("국회 본회의 --reporter 김기자 --until 18:00", "2026-03-20T14:00:00").unwrap();
    assert_eq!(c.topic, "국회 본회의");
    assert_eq!(c.reporter, "김기자");
    assert_eq!(c.until, Some("18:00".to_string()));
    assert!(c.active);
    let c2 = new_coverage_claim("환율", "now").unwrap();
    assert_eq!(c2.reporter, UNASSIGNED_REPORTER);
    assert_eq!(c2.until, None);
    // A new claim covers its own topic.
    assert_eq!(coverage_matches(&vec![c2.clone()], &c2.topic), vec![0]);
    assert_eq!(new_coverage_claim("", "now").unwrap_err(), CoverageError::Usage);
    assert_eq!(new_coverage_claim("--reporter 김기자", "now").unwrap_err(), CoverageError::EmptyTopic);
    assert_eq!(new_coverage_claim("국회 --until 9시", "now").unwrap_err(), CoverageError::InvalidTime);
}

#[test]
fn coverage_until_labels() {
    let late = until_label("14:00", "15:00");
    assert!(late.contains("[만료: 14:00 — 시간 초과]"));
    let soon = until_label("15:20", "15:00");
    assert!(soon.contains("[만료: 15:20 — 20분 남음]"));
    let later = until_label("18:00", "15:00");
    assert!(later.contains("[만료: 18:00 — 180분 남음]"));
    assert_eq!(until_label("저녁", "15:00"), " [만료: 저녁]");
}
