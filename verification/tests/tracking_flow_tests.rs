use newsroom_agent::alerts::{
    alert_headlines_text, alert_keyword_of, alert_list_text, naver_search_url, new_alert, remove_alert, Alert,
    AlertError,
};
use newsroom_agent::contacts::{contact_history_text, new_contact_log, recent_contacts, ContactError};
use newsroom_agent::follow::{
    follow_line, follow_list_order, follow_reminders, mark_followup_done, new_followup, remind_line, FollowError,
};
use newsroom_agent::notes::{new_note, note_export_prompt, note_line, pick_notes, NoteError, NoteQuery};
use newsroom_agent::research::NewsItem;
use newsroom_agent::rss::{
    merge_rss_cache, new_rss_feed, new_rss_items, remove_rss_feed, rss_cache_path, rss_feed_label, rss_list_text,
    rss_search_results, RssError, RssFeed,
};
use newsroom_agent::tracking::{ContactLog, Followup, Note, CONTACTS_DIR, NOTES_DIR};

fn alert(k: &str, c: &str) -> Alert {
    Alert { keyword: Some(k.to_string()), created: Some(c.to_string()) }
}

fn note(content: &str, source: Option<&str>, topic: Option<&str>, ts: &str) -> Note {
    Note {
        content: content.to_string(),
        source: source.map(|s| s.to_string()),
        topic: topic.map(|s| s.to_string()),
        timestamp: ts.to_string(),
    }
}

fn item(title: &str, link: &str, desc: &str) -> NewsItem {
    NewsItem {
        title: title.to_string(),
        link: link.to_string(),
        description: desc.to_string(),
        pub_date: String::new(),
    }
}

fn followup(topic: &str, due: Option<&str>, done: bool, created: &str) -> Followup {
    Followup { topic: topic.to_string(), due: due.map(|d| d.to_string()), done, created_at: created.to_string() }
}

// ── /alert ──────────────────────────────────────────────────────────

#[test]
fn alert_remove_by_index() {
    let mut alerts = vec![
        alert("반도체", "2026-03-20 09:00"),
        alert("삼성전자", "2026-03-20 09:01"),
        alert("LG", "2026-03-20 09:02"),
    ];
    let removed = remove_alert(&mut alerts, "2").unwrap();
    assert_eq!(removed.keyword, Some("삼성전자".to_string()));
    assert_eq!(alerts.len(), 2);
    assert_eq!(alerts[0].keyword, Some("반도체".to_string()));
    assert_eq!(alerts[1].keyword, Some("LG".to_string()));
}

#[test]
fn alert_no_duplicate_keywords() {
    let alerts = vec![alert("반도체", "2026-03-20 09:00")];
    assert_eq!(new_alert(&alerts, "반도체", "2026-03-20 10:00").unwrap_err(), AlertError::Duplicate);
    assert_eq!(new_alert(&alerts, "  반도체 ", "2026-03-20 10:00").unwrap_err(), AlertError::Duplicate);
    let a = new_alert(&alerts, " 환율 ", "2026-03-20 10:00").unwrap();
    assert_eq!(a.keyword, Some("환율".to_string()));
    assert_eq!(a.created, Some("2026-03-20 10:00".to_string()));
}

#[test]
fn alert_remove_errors() {
    let mut alerts = vec![alert("반도체", "t")];
    assert_eq!(remove_alert(&mut alerts, "x").unwrap_err(), AlertError::InvalidNumber);
    assert_eq!(remove_alert(&mut alerts, "0").unwrap_err(), AlertError::InvalidNumber);
    assert_eq!(remove_alert(&mut alerts, "2").unwrap_err(), AlertError::OutOfRange);
    assert_eq!(alerts.len(), 1);
}

#[test]
fn alert_texts() {
    let alerts = vec![alert("반도체", "2026-03-20 09:00"), Alert { keyword: None, created: None }];
    let list = alert_list_text(&alerts);
    assert!(list.contains("모니터링 키워드 (2 건)"));
    assert!(list.contains("1. 반도체  (등록: 2026-03-20 09:00)"));
    assert!(list.contains("2. ?  (등록: )"));
    assert_eq!(alert_keyword_of(&alerts[1]), "?");
    assert_eq!(
        naver_search_url("AI 반도체"),
        "https://search.naver.com/search.naver?where=news&query=AI%20%EB%B0%98%EB%8F%84%EC%B2%B4&sort=1&sm=tab_smr"
    );
    assert!(alert_headlines_text(&vec![]).contains("검색 결과 없음"));
    let h = alert_headlines_text(&vec!["제목 A".to_string(), "제목 B".to_string()]);
    assert!(h.contains("1. 제목 A"));
    assert!(h.contains("2. 제목 B"));
}

// ── /note ───────────────────────────────────────────────────────────

#[test]
fn notes_dir_constant() {
    assert_eq!(NOTES_DIR, ".journalist/notes");
}

#[test]
fn note_search_matches_content_source_topic() {
    let all = vec![
        note("삼성 신규 라인 4월 가동", Some("홍길동"), Some("반도체"), "2026-03-22T10:00:00"),
        note("환율 동향 분석", None, Some("경제"), "2026-03-22T11:00:00"),
    ];
    let by_content = pick_notes(&all, NoteQuery::Search, "삼성");
    assert_eq!(by_content, vec![0]);
    assert_eq!(all[by_content[0]].content, "삼성 신규 라인 4월 가동");
    assert_eq!(pick_notes(&all, NoteQuery::Search, "홍길동").len(), 1);
    let by_topic = pick_notes(&all, NoteQuery::Topic, "경제");
    assert_eq!(by_topic.len(), 1);
    assert_eq!(all[by_topic[0]].content, "환율 동향 분석");
}

#[test]
fn note_export_prompt_contains_notes() {
    let notes = vec![note("삼성 4월 가동", Some("김과장"), Some("반도체"), "2026-03-22T10:00:00")];
    let picks = pick_notes(&notes, NoteQuery::Export, "반도체");
    assert_eq!(picks.len(), 1);
    let prompt = note_export_prompt("반도체", &notes, &picks);
    assert!(prompt.contains("삼성 4월 가동"));
    assert!(prompt.contains("김과장"));
    assert!(prompt.contains("- [2026-03-22T10:00:00] (취재원: 김과장): 삼성 4월 가동\n"));
}

#[test]
fn note_topic_filter() {
    let all = vec![
        note("A 노트", None, Some("반도체"), "2026-03-22T09:00:00"),
        note("B 노트", None, Some("경제"), "2026-03-22T10:00:00"),
        note("C 노트", None, Some("반도체"), "2026-03-22T11:00:00"),
    ];
    let filtered = pick_notes(&all, NoteQuery::Topic, "반도체");
    assert_eq!(filtered.len(), 2);
    assert_eq!(all[filtered[0]].content, "A 노트");
    assert_eq!(all[filtered[1]].content, "C 노트");
}

#[test]
fn note_add_and_list_line() {
    let n = new_note("삼성 라인 가동 --source 홍길동 --topic 반도체", "2026-03-22T10:00:00").unwrap();
    assert_eq!(n.content, "삼성 라인 가동");
    assert_eq!(n.source, Some("홍길동".to_string()));
    assert_eq!(n.topic, Some("반도체".to_string()));
    assert_eq!(new_note("", "t").unwrap_err(), NoteError::Usage);
    assert_eq!(new_note("--topic 반도체", "t").unwrap_err(), NoteError::EmptyContent);
    let line = note_line(3, &n);
    assert!(line.contains("#3"));
    assert!(line.contains(" [홍길동] #반도체 삼성 라인 가동"));
    assert_eq!(newsroom_agent::notes::note_topic_filter("--topic 경제"), Some("경제".to_string()));
    assert_eq!(newsroom_agent::notes::note_topic_filter(""), None);
}

// ── /contact ────────────────────────────────────────────────────────

#[test]
fn contacts_dir_constant() {
    assert_eq!(CONTACTS_DIR, ".journalist/contacts");
}

#[test]
fn contact_log_and_history() {
    let l = new_contact_log("홍길동 \"신규 공장 계획 확인\"", "2026-03-22T10:00:00").unwrap();
    assert_eq!(l.name, "홍길동");
    assert_eq!(l.summary, "신규 공장 계획 확인");
    assert_eq!(new_contact_log("", "t").unwrap_err(), ContactError::Usage);
    assert_eq!(new_contact_log("홍길동", "t").unwrap_err(), ContactError::MissingParts);
    let h = contact_history_text("홍길동", &vec![l]);
    assert!(h.contains("홍길동 접촉 이력 (1 건)"));
    assert!(h.contains("  [2026-03-22T10:00:00] 신규 공장 계획 확인\n"));
}

#[test]
fn contact_recent_week() {
    let logs = vec![
        ContactLog { name: "A".into(), summary: "a".into(), timestamp: "2026-03-22T10:00:00".into() },
        ContactLog { name: "B".into(), summary: "b".into(), timestamp: "2026-03-10T10:00:00".into() },
        ContactLog { name: "C".into(), summary: "c".into(), timestamp: "날짜 없음".into() },
    ];
    assert_eq!(recent_contacts(&logs, 1774173600), vec![0]);
    assert_eq!(recent_contacts(&logs, 1773136800), vec![0, 1]);
}

// ── /follow ─────────────────────────────────────────────────────────

#[test]
fn follow_add_and_done() {
    let f = new_followup("국회 법안 후속 --due 2026-04-01", "2026-03-20T10:00:00").unwrap();
    assert_eq!(f.topic, "국회 법안 후속");
    assert_eq!(f.due, Some("2026-04-01".to_string()));
    assert!(!f.done);
    assert_eq!(new_followup("", "t").unwrap_err(), FollowError::Usage);
    assert_eq!(new_followup("주제 --due 4월", "t").unwrap_err(), FollowError::InvalidDate);
    let mut v = vec![f];
    assert_eq!(mark_followup_done(&mut v, "1"), Ok("국회 법안 후속".to_string()));
    assert!(v[0].done);
    assert_eq!(mark_followup_done(&mut v, "1"), Err(FollowError::AlreadyDone));
    assert_eq!(mark_followup_done(&mut v, "2"), Err(FollowError::NotFound));
    assert_eq!(mark_followup_done(&mut v, "x"), Err(FollowError::InvalidNumber));
}

#[test]
fn follow_list_order_due_first() {
    let v = vec![
        followup("undated", None, false, "2026-03-01T00:00:00"),
        followup("late", Some("2026-04-10"), false, "2026-03-01T00:00:00"),
        followup("done", Some("2026-03-01"), true, "2026-03-01T00:00:00"),
        followup("early", Some("2026-03-25"), false, "2026-03-02T00:00:00"),
    ];
    assert_eq!(follow_list_order(&v), vec![3, 1, 0]);
}

#[test]
fn follow_lines_and_reminders() {
    let v = vec![
        followup("A", Some("2026-03-19"), false, "c"),
        followup("B", Some("2026-03-22"), false, "c"),
        followup("C", Some("2026-03-20"), false, "c"),
        followup("D", Some("2026-05-01"), false, "c"),
        followup("E", Some("2026-03-18"), true, "c"),
    ];
    let r = follow_reminders(&v, "2026-03-20");
    assert_eq!(r, vec![(0, -1), (2, 0), (1, 2)]);
    assert!(follow_line(1, &v[0], "2026-03-20").contains("(기한 초과)"));
    assert!(follow_line(2, &v[1], "2026-03-20").contains("(2일 남음)"));
    assert!(remind_line(3, &v[2], 0).contains("오늘 마감!"));
    assert!(remind_line(1, &v[0], -1).contains("기한 초과!"));
}

// ── /rss ────────────────────────────────────────────────────────────

#[test]
fn rss_add_and_remove() {
    let mut feeds: Vec<RssFeed> = Vec::new();
    let f = new_rss_feed(&feeds, "https://news.example.com/rss.xml", "2026-03-22").unwrap();
    assert_eq!(f.name, "news.example.com");
    assert_eq!(f.url, "https://news.example.com/rss.xml");
    feeds.push(f);
    assert_eq!(new_rss_feed(&feeds, "https://news.example.com/rss.xml 이름", "d").unwrap_err(), RssError::Duplicate);
    assert_eq!(new_rss_feed(&feeds, "ftp://x", "d").unwrap_err(), RssError::InvalidUrl);
    let g = new_rss_feed(&feeds, "http://b.kr/feed 경제 뉴스", "d").unwrap();
    assert_eq!(g.name, "경제 뉴스");
    assert_eq!(remove_rss_feed(&mut feeds, "3").unwrap_err(), RssError::OutOfRange);
    assert_eq!(remove_rss_feed(&mut feeds, "0").unwrap_err(), RssError::InvalidNumber);
    let removed = remove_rss_feed(&mut feeds, "1").unwrap();
    assert_eq!(removed.url, "https://news.example.com/rss.xml");
    assert_eq!(remove_rss_feed(&mut feeds, "1").unwrap_err(), RssError::NoFeeds);
}

#[test]
fn rss_new_items_and_merge() {
    let cached = vec![item("old", "https://x/1", ""), item("old2", "https://x/2", "")];
    let fetched = vec![item("new", "https://x/3", ""), item("dup", "https://x/1", ""), item("nolink", "", "")];
    assert_eq!(new_rss_items(&fetched, &cached), vec![0]);
    let merged = merge_rss_cache(fetched.clone(), &cached);
    let links: Vec<&str> = merged.iter().map(|i| i.link.as_str()).collect();
    assert_eq!(links, vec!["https://x/3", "https://x/1", "", "https://x/2"]);
    // Checking the same items again against the merged cache finds nothing new.
    assert!(new_rss_items(&fetched, &merged).is_empty());
}

#[test]
fn rss_cache_is_capped() {
    let fetched: Vec<NewsItem> = (0..150).map(|i| item("t", &format!("https://a/{i}"), "")).collect();
    let cached: Vec<NewsItem> = (0..150).map(|i| item("t", &format!("https://b/{i}"), "")).collect();
    assert_eq!(merge_rss_cache(fetched, &cached).len(), 200);
}

#[test]
fn rss_search_and_labels() {
    let feeds = vec![
        RssFeed { url: "https://a.kr/rss".into(), name: "".into(), added: "d".into() },
        RssFeed { url: "https://b.kr/rss".into(), name: "B 뉴스".into(), added: "d".into() },
    ];
    let caches = vec![
        vec![item("반도체 수출 증가", "l1", "수출 호조"), item("환율", "l2", "")],
        vec![item("삼성", "l3", "반도체 수출 전망")],
    ];
    let hits = rss_search_results("반도체 수출", &feeds, &caches);
    assert_eq!(hits.len(), 2);
    assert_eq!(hits[0].0, "https://a.kr/rss");
    assert_eq!(hits[1].0, "B 뉴스");
    assert_eq!(rss_feed_label(&feeds[1]), "B 뉴스");
    assert!(rss_list_text(&feeds).contains("B 뉴스"));
    assert!(rss_cache_path("https://a.kr/rss").starts_with(".journalist/rss/cache/"));
    assert!(rss_cache_path("https://a.kr/rss").ends_with(".json"));
}
