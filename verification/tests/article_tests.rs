use newsroom_agent::article::{
    article_kind_of, build_article_prompt, draft_file_path_with_date, is_related_research,
    parse_article_args, ArticleKind,
};

#[test]
fn draft_file_path_with_topic() {
    let path = draft_file_path_with_date("반도체 수출", "2026-03-17");
    assert_eq!(path, ".journalist/drafts/2026-03-17_반도체-수출.md");
}

#[test]
fn draft_file_path_empty_topic() {
    let path = draft_file_path_with_date("", "2026-03-17");
    assert_eq!(path, ".journalist/drafts/2026-03-17_draft.md");
}

#[test]
fn draft_file_path_contains_date_and_slug() {
    let path_str = draft_file_path_with_date("AI 반도체 전망", "2026-01-15");
    assert!(path_str.contains("2026-01-15"));
    assert!(path_str.contains("ai-반도체-전망"));
    assert!(path_str.starts_with(".journalist/drafts/"));
    assert!(path_str.ends_with(".md"));
}

#[test]
fn article_prompt_without_topic() {
    let (prompt, has_topic) = build_article_prompt("", &[], None);
    assert!(!has_topic);
    assert!(prompt.contains("어떤 주제로 기사를 작성하시겠습니까"));
    assert!(prompt.contains("리드"));
}

#[test]
fn article_prompt_with_topic() {
    let (prompt, has_topic) = build_article_prompt("반도체 수출 동향", &[], None);
    assert!(has_topic);
    assert!(prompt.contains("반도체 수출 동향"));
    assert!(prompt.contains("리드"));
    assert!(prompt.contains("육하원칙"));
    assert!(prompt.contains("[확인 필요]"));
}

#[test]
fn article_prompt_includes_research_context() {
    let research = vec![(
        "반도체-수출-동향.md".to_string(),
        "# 반도체 수출 리서치\n수출액 증가 추세".to_string(),
    )];
    let (prompt, has_topic) = build_article_prompt("반도체 수출 동향", &research, None);
    assert!(has_topic);
    assert!(prompt.contains("관련 리서치 자료"));
    assert!(prompt.contains("반도체-수출-동향.md"));
    assert!(prompt.contains("수출액 증가 추세"));
    assert!(prompt.ends_with("\n### 📄 반도체-수출-동향.md\n# 반도체 수출 리서치\n수출액 증가 추세\n"));
}

#[test]
fn article_prompt_no_research_section_when_empty() {
    let (prompt, _) = build_article_prompt("반도체 수출 동향", &[], None);
    assert!(!prompt.contains("관련 리서치 자료"));
}

#[test]
fn parse_article_args_no_type() {
    let (article_type, topic) = parse_article_args("반도체 수출 동향");
    assert!(article_type.is_none());
    assert_eq!(topic, "반도체 수출 동향");
}

#[test]
fn parse_article_args_with_type() {
    let (article_type, topic) = parse_article_args("--type feature 반도체 수출 동향");
    assert_eq!(article_type.as_deref(), Some("feature"));
    assert_eq!(topic, "반도체 수출 동향");
}

#[test]
fn parse_article_args_type_only() {
    let (article_type, topic) = parse_article_args("--type analysis");
    assert_eq!(article_type.as_deref(), Some("analysis"));
    assert!(topic.is_empty());
}

#[test]
fn parse_article_args_empty() {
    let (article_type, topic) = parse_article_args("");
    assert!(article_type.is_none());
    assert!(topic.is_empty());
}

#[test]
fn parse_article_args_interview_type() {
    let (article_type, topic) = parse_article_args("--type interview 김 교수 인터뷰");
    assert_eq!(article_type.as_deref(), Some("interview"));
    assert_eq!(topic, "김 교수 인터뷰");
}

#[test]
fn parse_article_args_trailing_type_is_dropped() {
    let (article_type, topic) = parse_article_args("  a   b --type ");
    assert!(article_type.is_none());
    assert_eq!(topic, "a b");
}

#[test]
fn article_prompt_straight_type() {
    let (prompt, has_topic) = build_article_prompt("반도체 수출", &[], Some("straight"));
    assert!(has_topic);
    assert!(prompt.contains("역피라미드"));
    assert!(prompt.contains("리드"));
}

#[test]
fn article_prompt_feature_type() {
    let (prompt, has_topic) = build_article_prompt("반도체 수출", &[], Some("feature"));
    assert!(has_topic);
    assert!(prompt.contains("도입부"));
    assert!(prompt.contains("에피소드"));
}

#[test]
fn article_prompt_analysis_type() {
    let (prompt, has_topic) = build_article_prompt("반도체 수출", &[], Some("analysis"));
    assert!(has_topic);
    assert!(prompt.contains("배경"));
    assert!(prompt.contains("분석"));
    assert!(prompt.contains("전망"));
}

#[test]
fn article_prompt_planning_type() {
    let (prompt, has_topic) = build_article_prompt("반도체 수출", &[], Some("planning"));
    assert!(has_topic);
    assert!(prompt.contains("문제제기"));
    assert!(prompt.contains("현황"));
    assert!(prompt.contains("대안"));
}

#[test]
fn article_prompt_interview_type() {
    let (prompt, has_topic) = build_article_prompt("김 교수 인터뷰", &[], Some("interview"));
    assert!(has_topic);
    assert!(prompt.contains("인터뷰이 소개"));
    assert!(prompt.contains("Q&A"));
    assert!(prompt.contains("핵심 발언"));
    assert!(prompt.contains("인터뷰"));
}

#[test]
fn article_prompt_column_type() {
    let (prompt, has_topic) = build_article_prompt("AI 규제 논란", &[], Some("column"));
    assert!(has_topic);
    assert!(prompt.contains("문제 제기"));
    assert!(prompt.contains("논거 전개"));
    assert!(prompt.contains("반론 검토"));
    assert!(prompt.contains("칼럼"));
}

#[test]
fn article_prompt_editorial_type() {
    let (prompt, has_topic) = build_article_prompt("교육 개혁", &[], Some("editorial"));
    assert!(has_topic);
    assert!(prompt.contains("사안 제시"));
    assert!(prompt.contains("논점 분석"));
    assert!(prompt.contains("사설"));
}

#[test]
fn article_prompt_default_type_is_straight() {
    let (prompt_default, _) = build_article_prompt("반도체 수출", &[], None);
    let (prompt_straight, _) = build_article_prompt("반도체 수출", &[], Some("straight"));
    assert!(prompt_default.contains("리드"));
    assert!(prompt_straight.contains("리드"));
    assert!(prompt_default.contains("역피라미드") || prompt_default.contains("육하원칙"));
    assert_eq!(prompt_default, prompt_straight);
    assert_eq!(article_kind_of(Some("해설")), ArticleKind::Analysis);
    assert_eq!(article_kind_of(Some("unknown")), ArticleKind::Straight);
}

#[test]
fn find_related_research_matches_keyword_in_filename() {
    assert!(is_related_research("2026-03-17_반도체-수출-동향.md", "반도체 수출"));
    assert!(!is_related_research("2026-03-17_부동산-시장.md", "반도체 수출"));
}

#[test]
fn find_related_research_no_match() {
    assert!(!is_related_research("2026-03-17_부동산-시장.md", "반도체 수출"));
}

#[test]
fn find_related_research_multiple_matches() {
    let names = ["2026-03-16_반도체-수출.md", "2026-03-17_반도체-시장-전망.md"];
    assert_eq!(names.iter().filter(|n| is_related_research(n, "반도체")).count(), 2);
    assert!(is_related_research("2026-03-16_AI-Chips.md", "ai"));
    assert!(!is_related_research("x.md", "   "));
}
