use newsroom_agent::series::{
    format_series_detail, format_series_status, series_slug, SeriesInstallment, SeriesMeta,
    SERIES_STATUSES, SERIES_SUBCOMMANDS,
};

#[test]
fn series_slug_generation() {
    assert_eq!(series_slug("반도체 전쟁"), "반도체-전쟁");
    assert_eq!(series_slug("AI Revolution"), "ai-revolution");
    assert_eq!(series_slug(""), "");
}

#[test]
fn series_subcommands_constant() {
    assert!(SERIES_SUBCOMMANDS.contains(&"new"));
    assert!(SERIES_SUBCOMMANDS.contains(&"list"));
    assert!(SERIES_SUBCOMMANDS.contains(&"add"));
    assert!(SERIES_SUBCOMMANDS.contains(&"status"));
    assert!(SERIES_SUBCOMMANDS.contains(&"recap"));
    assert!(SERIES_SUBCOMMANDS.contains(&"link"));
    assert_eq!(SERIES_SUBCOMMANDS.len(), 6);
}

#[test]
fn format_series_status_display() {
    let meta = SeriesMeta {
        title: "테스트 시리즈".to_string(),
        slug: "테스트-시리즈".to_string(),
        status: "진행중".to_string(),
        created: "2026-03-28".to_string(),
        installments: vec![
            SeriesInstallment {
                number: 1,
                title: "1회".to_string(),
                added_date: "2026-03-28".to_string(),
                story_slug: Some("story-1".to_string()),
            },
            SeriesInstallment {
                number: 2,
                title: "2회".to_string(),
                added_date: "2026-03-29".to_string(),
                story_slug: None,
            },
        ],
    };
    let status = format_series_status(&meta);
    assert!(status.contains("진행중"));
    assert!(status.contains("테스트 시리즈"));
    assert!(status.contains("2회"));
    assert!(status.contains("1개 연결"));
}

#[test]
fn format_series_detail_display() {
    let meta = SeriesMeta {
        title: "AI 시대".to_string(),
        slug: "ai-시대".to_string(),
        status: "진행중".to_string(),
        created: "2026-03-28".to_string(),
        installments: vec![SeriesInstallment {
            number: 1,
            title: "서막".to_string(),
            added_date: "2026-03-28".to_string(),
            story_slug: Some("ai-story".to_string()),
        }],
    };
    let detail = format_series_detail(&meta);
    assert!(detail.contains("AI 시대"));
    assert!(detail.contains("1회: 서막"));
    assert!(detail.contains("→ ai-story"));
}

#[test]
fn series_statuses_valid() {
    assert!(SERIES_STATUSES.contains(&"진행중"));
    assert!(SERIES_STATUSES.contains(&"휴재"));
    assert!(SERIES_STATUSES.contains(&"완결"));
    assert_eq!(SERIES_STATUSES.len(), 3);
}

use newsroom_agent::series::{add_series_installment, create_series, link_story_to_series};

#[test]
fn create_series_basic() {
    let meta = create_series("반도체 전쟁 시리즈", false, "2026-03-28").unwrap();
    assert_eq!(meta.title, "반도체 전쟁 시리즈");
    assert_eq!(meta.slug, "반도체-전쟁-시리즈");
    assert_eq!(meta.status, "진행중");
    assert!(meta.installments.is_empty());
}

#[test]
fn create_series_empty_title() {
    let result = create_series("", false, "2026-03-28");
    assert!(result.is_err());
}

#[test]
fn create_series_duplicate() {
    let first = create_series("테스트", false, "2026-03-28").unwrap();
    // The first series is now stored under its slug.
    let taken = first.slug == newsroom_agent::series::series_slug("테스트");
    let result = create_series("테스트", taken, "2026-03-28");
    assert!(result.is_err());
    assert!(result.unwrap_err().contains("이미 존재"));
}

#[test]
fn add_installment_auto_numbering() {
    let meta = create_series("연재물", false, "2026-03-28").unwrap();
    let (meta, n1) = add_series_installment("연재물", "첫 회", Some(meta), "2026-03-28").unwrap();
    assert_eq!(n1, 1);
    let (meta, n2) = add_series_installment("연재물", "둘째 회", Some(meta), "2026-03-29").unwrap();
    assert_eq!(n2, 2);
    let (meta, n3) = add_series_installment("연재물", "셋째 회", Some(meta), "2026-03-30").unwrap();
    assert_eq!(n3, 3);
    assert_eq!(meta.installments.len(), 3);
    assert_eq!(meta.installments[2].number, 3);
    assert_eq!(meta.installments[2].title, "셋째 회");
}

#[test]
fn add_installment_not_found() {
    let result = add_series_installment("없는시리즈", "제목", None, "2026-03-28");
    assert!(result.is_err());
}

#[test]
fn add_installment_empty_title() {
    let meta = create_series("테스트", false, "2026-03-28").unwrap();
    let result = add_series_installment("테스트", "", Some(meta), "2026-03-28");
    assert!(result.is_err());
}

#[test]
fn link_story_to_series_basic() {
    let meta = create_series("링크테스트", false, "2026-03-28").unwrap();
    let (meta, _) = add_series_installment("링크테스트", "1회", Some(meta), "2026-03-28").unwrap();
    let (meta, _) = add_series_installment("링크테스트", "2회", Some(meta), "2026-03-29").unwrap();

    // Link to first unlinked installment
    let (meta, num) = link_story_to_series("링크테스트", "my-story", Some(meta)).unwrap();
    assert_eq!(num, 2); // last unlinked (rposition finds 2nd)

    // Now first unlinked is installment 1
    let (_meta, num2) = link_story_to_series("링크테스트", "other-story", Some(meta)).unwrap();
    assert_eq!(num2, 1);
}

#[test]
fn link_story_no_installments() {
    let meta = create_series("빈시리즈", false, "2026-03-28").unwrap();
    let result = link_story_to_series("빈시리즈", "story", Some(meta));
    assert!(result.is_err());
    assert!(result.unwrap_err().contains("회차가 없습니다"));
}

#[test]
fn link_story_all_linked_relinks_last() {
    let meta = create_series("s", false, "d").unwrap();
    let (meta, _) = add_series_installment("s", "1회", Some(meta), "d").unwrap();
    let (meta, a) = link_story_to_series("s", "x", Some(meta)).unwrap();
    let (meta, b) = link_story_to_series("s", "y", Some(meta)).unwrap();
    assert_eq!((a, b), (1, 1));
    assert_eq!(meta.installments[0].story_slug.as_deref(), Some("y"));
}
