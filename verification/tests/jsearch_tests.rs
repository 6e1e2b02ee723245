use newsroom_agent::data::parse_bigkinds_related;
use newsroom_agent::jsearch::{
    jsearch_in, jsearch_report, research_search_in, search_file, JSearchFile, JSearchResult, JSEARCH_TARGETS,
};

fn file(category: &str, name: &str, content: &str) -> JSearchFile {
    JSearchFile { category: category.to_string(), name: name.to_string(), content: content.to_string() }
}

#[test]
fn test_jsearch_keyword_match() {
    let files = vec![file("리서치", "topic.md", "반도체 산업 동향 분석")];
    let results = jsearch_in("반도체", &files);
    assert_eq!(results.len(), 1);
    assert_eq!(results[0].category, "리서치");
    assert!(results[0].preview.contains("반도체"));
}

#[test]
fn test_jsearch_empty_keyword() {
    let files = vec![file("리서치", "topic.md", "반도체 산업 동향 분석")];
    let results = jsearch_in("", &files);
    assert!(results.is_empty());
}

#[test]
fn test_jsearch_whitespace_keyword() {
    let files = vec![file("리서치", "topic.md", "반도체 산업 동향 분석")];
    let results = jsearch_in("   ", &files);
    assert!(results.is_empty());
}

#[test]
fn test_jsearch_no_match() {
    let files = vec![file("리서치", "topic.md", "AI 기술 동향")];
    let results = jsearch_in("반도체", &files);
    assert!(results.is_empty());
}

#[test]
fn test_jsearch_category_classification() {
    let files = vec![
        file("취재노트", "meeting.jsonl", r#"{"note":"삼성전자 취재"}"#),
        file("초안", "article.md", "삼성전자 실적 발표"),
    ];
    let results = jsearch_in("삼성전자", &files);
    assert_eq!(results.len(), 2);
    let categories: Vec<&str> = results.iter().map(|r| r.category.as_str()).collect();
    assert!(categories.contains(&"취재노트"));
    assert!(categories.contains(&"초안"));
}

#[test]
fn test_jsearch_filename_match() {
    let files = vec![file("리서치", "반도체.md", "내용 없음")];
    let results = jsearch_in("반도체", &files);
    assert_eq!(results.len(), 1);
    assert!(results[0].preview.contains("파일명 매칭"));
}

#[test]
fn jsearch_is_case_insensitive_and_previews_first_hit_line() {
    let files = vec![file("리서치", "ai.md", "첫 줄\n  NVIDIA GPU 공급  \n셋째 줄")];
    let results = jsearch_in(" gpu ", &files);
    assert_eq!(results.len(), 1);
    assert_eq!(results[0].preview, "NVIDIA GPU 공급");
    assert_eq!(results[0].file, "ai.md");
}

#[test]
fn jsearch_preview_is_cut_at_eighty_bytes() {
    let long = "가".repeat(40);
    let files = vec![file("리서치", "long.md", &long)];
    let results = jsearch_in("가", &files);
    assert_eq!(results[0].preview, format!("{}…", "가".repeat(26)));
}

#[test]
fn jsearch_search_file_appends() {
    let mut results: Vec<JSearchResult> = Vec::new();
    search_file("a.md", "삼성 실적", "삼성", "초안", &mut results);
    search_file("b.md", "무관", "삼성", "초안", &mut results);
    assert_eq!(results.len(), 1);
    assert_eq!(results[0].file, "a.md");
}

#[test]
fn jsearch_report_groups_by_category() {
    let files = vec![
        file("초안", "a.md", "삼성 1"),
        file("리서치", "b.md", "삼성 2"),
        file("초안", "c.md", "삼성 3"),
    ];
    let results = jsearch_in("삼성", &files);
    let report = jsearch_report("삼성", &results);
    assert!(report.contains("\"삼성\" 통합 검색 결과 (3건)"));
    let research = report.find("[리서치]").unwrap();
    let drafts = report.find("[초안]").unwrap();
    assert!(research < drafts);
    assert_eq!(report.matches("[초안]").count(), 1);
    let a = report.find("a.md").unwrap();
    let c = report.find("c.md").unwrap();
    assert!(a < c);
}

#[test]
fn jsearch_targets_cover_data_dirs() {
    assert!(JSEARCH_TARGETS.iter().any(|t| t.0 == "research" && t.1 == "리서치"));
    assert!(JSEARCH_TARGETS.iter().any(|t| t.0 == "notes" && t.1 == "취재노트"));
}

#[test]
fn research_search_finds_filename_and_content() {
    let files = vec![
        ("2026-03-01_반도체.md".to_string(), "내용".to_string()),
        ("2026-03-02_환율.md".to_string(), "원달러 환율 급등\n반도체 영향".to_string()),
        ("2026-03-03_기타.md".to_string(), "무관".to_string()),
    ];
    let hits = research_search_in("반도체", &files);
    assert_eq!(hits.len(), 2);
    assert_eq!(hits[0].0, "2026-03-01_반도체.md");
    assert_eq!(hits[1].0, "2026-03-02_환율.md");
    assert!(research_search_in("", &files).is_empty());
}

#[test]
fn test_parse_bigkinds_related_normal() {
    let json = r#"{"result":{"nodes":[{"name":"AI","weight":"0.85"},{"name":"GPU","weight":"0.72"}]}}"#;
    let related = parse_bigkinds_related(json);
    assert_eq!(related.len(), 2);
    assert_eq!(related[0].keyword, "AI");
    let score: f64 = related[0].weight.parse().unwrap();
    assert!((score - 0.85).abs() < 0.001);
}

#[test]
fn test_parse_bigkinds_related_empty() {
    let json = r#"{"result":{"nodes":[]}}"#;
    let related = parse_bigkinds_related(json);
    assert!(related.is_empty());
}
