use newsroom_agent::prompts::{
    build_factcheck_prompt, build_news_context, build_research_prompt, build_trend_prompt,
    contact_suggest_prompt, network_suggest_prompt, sns_buzz_prompt, sns_search_prompt,
    sns_trend_prompt,
};
use newsroom_agent::research::NewsItem;
use newsroom_agent::sources::Source;
use newsroom_agent::tracking::ContactLog;

#[test]
fn build_news_context_empty_items() {
    let ctx = build_news_context(&[]);
    assert!(ctx.is_empty());
}

#[test]
fn build_news_context_formats_items() {
    let items = vec![
        NewsItem {
            title: "반도체 수출 증가".to_string(),
            link: "https://example.com/1".to_string(),
            description: "요약 내용".to_string(),
            pub_date: "Mon, 17 Mar 2026".to_string(),
        },
        NewsItem {
            title: "두 번째 뉴스".to_string(),
            link: "https://example.com/2".to_string(),
            description: String::new(),
            pub_date: String::new(),
        },
    ];
    let ctx = build_news_context(&items);
    assert!(ctx.contains("네이버 뉴스 API 검색 결과"));
    assert!(ctx.contains("1. 반도체 수출 증가 (Mon, 17 Mar 2026)"));
    assert!(ctx.contains("링크: https://example.com/1"));
    assert!(ctx.contains("요약: 요약 내용"));
    assert!(ctx.contains("2. 두 번째 뉴스"));
    // No pub_date for second item — no parentheses
    assert!(!ctx.contains("2. 두 번째 뉴스 ("));
    // No description for second item — no 요약 line
    assert!(!ctx.contains("요약: \n"));
}

#[test]
fn build_research_prompt_without_news() {
    let prompt = build_research_prompt("반도체 수출 동향", "");
    assert!(prompt.contains("반도체 수출 동향"));
    assert!(prompt.contains("DuckDuckGo"));
    assert!(prompt.contains("반도체+수출+동향"));
    assert!(!prompt.contains("네이버 뉴스 API 검색 결과"));
}

#[test]
fn build_research_prompt_with_news_context() {
    let news = "\n\n[네이버 뉴스 API 검색 결과]\n1. 테스트 뉴스\n";
    let prompt = build_research_prompt("AI 동향", news);
    assert!(prompt.contains("AI 동향"));
    assert!(prompt.contains("DuckDuckGo"));
    assert!(prompt.ends_with(news));
}

#[test]
fn research_prompt_exact_opening() {
    let prompt = build_research_prompt("a b", "");
    assert!(prompt.starts_with("다음 주제에 대해 웹 리서치를 수행해주세요: a b\n\n다음 단계를 따라주세요:\n1. DuckDuckGo로 검색: curl -s \"https://lite.duckduckgo.com/lite?q=a+b\""));
    assert!(prompt.contains("\n- **핵심 사실** — 확인된 주요 정보\n"));
}

#[test]
fn factcheck_prompt_empty_rejected() {
    assert!(build_factcheck_prompt("").is_none());
}

#[test]
fn factcheck_prompt_with_claim() {
    let prompt = build_factcheck_prompt("한국 반도체 수출이 사상 최대").unwrap();
    assert!(prompt.contains("한국 반도체 수출이 사상 최대"));
    assert!(prompt.contains("팩트체크"));
    assert!(prompt.contains("판정"));
}

#[test]
fn factcheck_prompt_cross_verification_strategies() {
    let prompt = build_factcheck_prompt("테스트 주장").unwrap();
    assert!(prompt.contains("data.go.kr"), "공공데이터포털 참조 누락");
    assert!(prompt.contains("보도자료"), "보도자료 대조 전략 누락");
    assert!(prompt.contains("시계열"), "시계열 데이터 비교 전략 누락");
    assert!(prompt.contains("검증 과정"), "단계별 검증 과정 표시 누락");
}

#[test]
fn factcheck_prompt_whitespace_only_rejected() {
    assert!(build_factcheck_prompt("").is_none());
    assert!(build_factcheck_prompt("test").is_some());
}

#[test]
fn build_trend_prompt_contains_keyword() {
    let prompt = build_trend_prompt("반도체", "");
    assert!(prompt.contains("반도체"));
    assert!(prompt.contains("보도량 추이"));
    assert!(prompt.contains("프레임"));
    assert!(prompt.contains("각도"));
    assert!(prompt.contains("취재 타이밍"));
}

#[test]
fn build_trend_prompt_includes_news_context() {
    let news_ctx = "\n[뉴스 데이터]\n1. 반도체 수출 급증";
    let prompt = build_trend_prompt("반도체", news_ctx);
    assert!(prompt.contains("반도체 수출 급증"));
    assert!(prompt.contains("요약해주세요.\n[뉴스 데이터]"));
}

#[test]
fn sns_prompt_contains_keyword() {
    let prompt = sns_search_prompt("반도체");
    assert!(prompt.contains("반도체"));
    let prompt = sns_buzz_prompt("AI규제");
    assert!(prompt.contains("AI규제"));
}

#[test]
fn sns_trend_prompt_not_empty() {
    let prompt = sns_trend_prompt();
    assert!(!prompt.is_empty());
    assert!(prompt.contains("트렌드"));
}

#[test]
fn network_suggest_prompt_contains_topic() {
    let prompt = network_suggest_prompt("반도체 수출규제", "경제: 3 명, 정치: 1 명");
    assert!(prompt.contains("반도체 수출규제"));
    assert!(prompt.contains("경제: 3 명, 정치: 1 명"));
}

#[test]
fn contact_suggest_prompt_contains_topic() {
    let sources = vec![Source {
        name: Some("홍길동".to_string()),
        org: Some("산업부".to_string()),
        contact: None,
        note: None,
        beat: Some("경제".to_string()),
    }];
    let logs = vec![ContactLog {
        name: "홍길동".to_string(),
        summary: "통화".to_string(),
        timestamp: "2026-03-22T10:00:00".to_string(),
    }];
    let prompt = contact_suggest_prompt("반도체", &sources, &logs);
    assert!(prompt.contains("반도체"));
    assert!(prompt.contains("- 홍길동 | 산업부 | beat: 경제 | \n"));
    assert!(prompt.contains("- 홍길동 [2026-03-22T10:00:00]: 통화\n"));
}

#[test]
fn contact_suggest_prompt_empty_topic() {
    assert_eq!(contact_suggest_prompt("", &Vec::new(), &Vec::new()), "");
    let p = contact_suggest_prompt("t", &Vec::new(), &Vec::new());
    assert!(p.contains("(등록된 취재원 없음)\n"));
    assert!(p.contains("(최근 접촉 기록 없음)\n"));
}

#[test]
fn contact_suggest_prompt_takes_latest_twenty_newest_first() {
    let logs: Vec<ContactLog> = (0..25)
        .map(|i| ContactLog { name: format!("n{i}"), summary: String::new(), timestamp: String::new() })
        .collect();
    let p = contact_suggest_prompt("t", &Vec::new(), &logs);
    assert!(p.contains("- n24 []: \n- n23 []: \n"));
    assert!(p.contains("- n5 []"));
    assert!(!p.contains("- n4 []"));
}
