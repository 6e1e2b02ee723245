use newsroom_agent::calendar::thirty_days_before;
use newsroom_agent::collab::{collab_line, collab_view};
use newsroom_agent::desk::{desk_line, desk_list_order, desk_reporter_filter};
use newsroom_agent::editorial::{
    desk_path, hhmm_of_secs, timestamp_of_secs, CollabNote, CollabProject, CollabStatus, DeskAssignment,
    DeskStatus, COVERAGE_FILE,
};
use newsroom_agent::git::{
    build_review_prompt, pr_branch_line, pr_created_label, pr_gh_args, pr_list_text, review_pick, undo_plan,
    PrSubcommand, ReviewPick, REVIEW_MAX_BYTES,
};
use newsroom_agent::notes::note_meta;
use newsroom_agent::order::{order_by_key, order_by_two_keys, sort_by_days};
use newsroom_agent::research::NewsItem;
use newsroom_agent::rss::{rss_fetch_summary, rss_hit_block};
use newsroom_agent::tracking::Note;

fn strings(v: &[&str]) -> Vec<String> {
    v.iter().map(|s| s.to_string()).collect()
}

fn desk(reporter: &str, deadline: Option<&str>, status: DeskStatus, created: &str) -> DeskAssignment {
    DeskAssignment {
        reporter: reporter.into(),
        content: "취재".into(),
        deadline: deadline.map(|d| d.to_string()),
        status,
        feedback: vec![],
        is_pitch: false,
        created_at: created.into(),
    }
}

// ── ordering ────────────────────────────────────────────────────────

#[test]
fn ordering_helpers() {
    assert_eq!(order_by_key(&strings(&["b", "a", "c", "a"])), vec![1, 3, 0, 2]);
    assert_eq!(
        order_by_two_keys(&strings(&["1", "0", "0", "1"]), &strings(&["x", "z", "y", "a"])),
        vec![2, 1, 3, 0]
    );
    assert_eq!(sort_by_days(&vec![(0, 3), (1, -2), (2, 3), (3, 0)]), vec![(1, -2), (3, 0), (0, 3), (2, 3)]);
}

// ── /desk list ──────────────────────────────────────────────────────

#[test]
fn desk_listing() {
    let v = vec![
        desk("김기자", None, DeskStatus::Pending, "2026-03-20T09:00:00"),
        desk("박기자", Some("18:00"), DeskStatus::Pending, "2026-03-20T10:00:00"),
        desk("김기자", Some("12:00"), DeskStatus::Pending, "2026-03-20T11:00:00"),
        desk("김기자", None, DeskStatus::Done, "2026-03-20T08:00:00"),
    ];
    assert_eq!(desk_list_order(&v, &None), vec![2, 1, 0]);
    assert_eq!(desk_list_order(&v, &Some("김기자".to_string())), vec![2, 0]);
    assert_eq!(desk_reporter_filter("--reporter 김기자"), Some("김기자".to_string()));
    assert_eq!(desk_reporter_filter(""), None);
    let line = desk_line(2, &v[1]);
    assert!(line.contains("📝 #2 [박기자] 취재 [마감: 18:00]"));
    assert_eq!(desk_path(), ".journalist/desk/assignments.json");
    assert_eq!(COVERAGE_FILE, ".journalist/coverage.json");
}

// ── /collaborate list & view ────────────────────────────────────────

#[test]
fn collab_texts() {
    let p = CollabProject {
        name: "반도체".into(),
        reporters: strings(&["김기자", "이기자"]),
        notes: vec![CollabNote { reporter: "".into(), content: "메모".into(), timestamp: "t".into() }],
        status: CollabStatus::Active,
        created_at: "2026-03-20T10:00:00".into(),
    };
    assert!(collab_line(1, &p).contains("1. 반도체 [김기자, 이기자] — 메모 1건"));
    let v = collab_view(&p);
    assert!(v.contains("반도체"));
    assert!(v.contains("[익명] "));
    assert!(v.contains("메모"));
}

// ── time texts ──────────────────────────────────────────────────────

#[test]
fn time_texts() {
    assert_eq!(hhmm_of_secs(1774173600), "10:00");
    assert_eq!(hhmm_of_secs(3600 * 25 + 60 * 7), "01:07");
    assert_eq!(timestamp_of_secs(1774173600), "2026-03-22T10:00:00");
    assert_eq!(thirty_days_before(1774173600), "2026-02-20");
}

// ── notes and rss texts ─────────────────────────────────────────────

#[test]
fn note_and_rss_texts() {
    let n = Note { content: "c".into(), source: Some("홍길동".into()), topic: Some("반도체".into()), timestamp: "t".into() };
    assert_eq!(note_meta(&n), " [취재원: 홍길동] [주제: 반도체]");
    let bare = Note { content: "c".into(), source: None, topic: None, timestamp: "t".into() };
    assert_eq!(note_meta(&bare), "");
    let it = NewsItem { title: "제목".into(), link: "https://l".into(), description: "".into(), pub_date: "d".into() };
    let block = rss_hit_block(1, "피드", &it);
    assert!(block.contains("[1]"));
    assert!(block.contains("[피드] d"));
    assert!(block.contains("https://l"));
    let items: Vec<NewsItem> = (0..7)
        .map(|i| NewsItem { title: format!("t{i}"), link: format!("l{i}"), description: "".into(), pub_date: "".into() })
        .collect();
    let s = rss_fetch_summary(&items, &vec![0, 1, 2, 3, 4, 5, 6]);
    assert!(s.contains("7 건"));
    assert!(s.contains("(새 7 건)"));
    assert!(s.contains("... 외 2 건"));
    assert!(!rss_fetch_summary(&items, &vec![1]).contains("외"));
}

// ── /pr, /undo, /review ─────────────────────────────────────────────

#[test]
fn pr_helpers() {
    assert_eq!(pr_gh_args(&PrSubcommand::List), Some(strings(&["pr", "list", "--limit", "10"])));
    assert_eq!(pr_gh_args(&PrSubcommand::View(12)), Some(strings(&["pr", "view", "12"])));
    assert_eq!(
        pr_gh_args(&PrSubcommand::Comment(3, "좋아요".into())),
        Some(strings(&["pr", "comment", "3", "--body", "좋아요"]))
    );
    assert_eq!(pr_gh_args(&PrSubcommand::Help), None);
    assert_eq!(pr_gh_args(&PrSubcommand::Create { draft: true }), None);
    assert!(pr_branch_line("feat", "main", 1).contains("Branch: feat → main (1 commit)"));
    assert!(pr_branch_line("feat", "main", 3).contains("(3 commits)"));
    assert_eq!(pr_created_label("  https://gh/pr/1\n", "제목"), "https://gh/pr/1");
    assert_eq!(pr_created_label("", "제목"), "제목");
    assert!(pr_list_text("").contains("(no open pull requests)"));
    assert!(pr_list_text("#1 a\n#2 b").contains("Open pull requests:"));
}

#[test]
fn undo_and_review() {
    assert_eq!(undo_plan(true, " 1 file changed", "a.txt\nb.txt"), (true, strings(&["a.txt", "b.txt"])));
    assert_eq!(undo_plan(false, " 1 file changed", ""), (false, vec![]));
    assert_eq!(undo_plan(true, "  ", ""), (false, vec![]));
    assert_eq!(review_pick(None, "x"), ReviewPick::NotRepo);
    assert_eq!(review_pick(Some("diff"), "u"), ReviewPick::Staged("diff".into()));
    assert_eq!(review_pick(Some(" "), "u"), ReviewPick::Unstaged("u".into()));
    assert_eq!(review_pick(Some(""), "\n"), ReviewPick::Nothing);
    let p = build_review_prompt("staged changes", "fn a() {}");
    assert!(p.starts_with("Review the following code (staged changes)."));
    assert!(p.ends_with("```\nfn a() {}\n```"));
    let big = "a".repeat(REVIEW_MAX_BYTES + 7);
    let q = build_review_prompt("f", &big);
    assert!(q.contains("... (truncated, 7 more chars)"));
}
