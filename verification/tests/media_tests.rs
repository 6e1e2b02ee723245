use newsroom_agent::clip::{
    clip_fetch_command, clip_file_content, clip_list_order, clip_prompt, clip_request, clip_source, ClipRequest,
};
use newsroom_agent::law::{law_api_url, law_command, law_results_text, law_terms_from_items, LawCommand, LawItem, LawTerm};
use newsroom_agent::news::{
    naver_news_url, news_clip_content, news_fallback_prompt, news_request, news_results_text, parse_web_news,
    web_news_url, NewsRequest,
};
use newsroom_agent::press::{
    api_error, press_api_url, press_cache_item, press_cache_path, press_command, press_results_text,
    press_view_text, split_at_space, PressCommand,
};
use newsroom_agent::research::{sns_request, NewsItem, PressRelease, SnsRequest};
use newsroom_agent::wire::{
    select_wire_items, tag_wire_items, wire_clip_content, wire_request, wire_results_text, WireRequest,
    WIRE_MAX_ITEMS,
};

fn item(title: &str, link: &str, desc: &str, date: &str) -> NewsItem {
    NewsItem { title: title.into(), link: link.into(), description: desc.into(), pub_date: date.into() }
}

fn law_item(pairs: &[(&str, &str)]) -> LawItem {
    let get = |k: &str| pairs.iter().find(|p| p.0 == k).map(|p| p.1.to_string());
    LawItem {
        term_nm: get("termNm"),
        lgl_trm_nm: get("lglTrmNm"),
        term_df: get("termDf"),
        lgl_trm_dfn: get("lglTrmDfn"),
        rl_lw_nm: get("rlLwNm"),
        law_nm: get("lawNm"),
    }
}

// ── /sns ────────────────────────────────────────────────────────────

#[test]
fn sns_subcommand_routing_help() {
    assert_eq!(sns_request("/sns"), SnsRequest::Help);
    assert_eq!(sns_request("/sns help"), SnsRequest::Help);
}

#[test]
fn sns_subcommand_routing_trend() {
    assert_eq!(sns_request("/sns trend"), SnsRequest::Trend);
}

#[test]
fn sns_subcommand_routing_search_keyword() {
    assert_eq!(sns_request("/sns search 반도체"), SnsRequest::Search(Some("반도체".to_string())));
}

#[test]
fn sns_subcommand_routing_buzz_keyword() {
    assert_eq!(sns_request("/sns buzz AI규제"), SnsRequest::Buzz(Some("AI규제".to_string())));
}

#[test]
fn sns_search_empty_keyword_detected() {
    assert_eq!(sns_request("/sns search"), SnsRequest::Search(None));
}

#[test]
fn sns_buzz_empty_keyword_detected() {
    assert_eq!(sns_request("/sns buzz   "), SnsRequest::Buzz(None));
}

#[test]
fn sns_unknown_subcommand() {
    assert_eq!(sns_request("/sns foo bar"), SnsRequest::Unknown("foo".to_string()));
}

// ── /law ────────────────────────────────────────────────────────────

#[test]
fn parse_law_response_extracts_terms() {
    let items = vec![
        law_item(&[
            ("termNm", "공소시효"),
            ("termDf", "범죄 행위가 종료된 후 일정 기간이 지나면 공소를 제기할 수 없게 되는 제도"),
            ("rlLwNm", "형사소송법"),
        ]),
        law_item(&[("termNm", "공소장"), ("termDf", "검사가 공소를 제기할 때 법원에 제출하는 서면"), ("rlLwNm", "형사소송법")]),
    ];
    let results = law_terms_from_items(&items);
    assert_eq!(results.len(), 2);
    assert_eq!(results[0].term, "공소시효");
    assert!(results[0].definition.contains("공소"));
    assert_eq!(results[0].law_name, "형사소송법");
    assert_eq!(results[1].term, "공소장");
}

#[test]
fn parse_law_response_single_item() {
    let items = vec![law_item(&[("termNm", "선고"), ("termDf", "법원이 판결을 외부에 표시하는 행위"), ("rlLwNm", "민사소송법")])];
    let results = law_terms_from_items(&items);
    assert_eq!(results.len(), 1);
    assert_eq!(results[0].term, "선고");
    assert_eq!(results[0].law_name, "민사소송법");
}

#[test]
fn parse_law_response_empty() {
    assert!(law_terms_from_items(&vec![]).is_empty());
}

#[test]
fn parse_law_response_alternative_field_names() {
    let items = vec![law_item(&[
        ("lglTrmNm", "구속영장"),
        ("lglTrmDfn", "피의자를 구속하기 위해 발부하는 영장"),
        ("lawNm", "형사소송법"),
    ])];
    let results = law_terms_from_items(&items);
    assert_eq!(results.len(), 1);
    assert_eq!(results[0].term, "구속영장");
    assert!(results[0].definition.contains("영장"));
    assert_eq!(results[0].law_name, "형사소송법");
}

#[test]
fn law_items_without_term_are_dropped() {
    let items = vec![law_item(&[("termDf", "정의만 있음")]), law_item(&[("termNm", ""), ("lglTrmNm", "무시됨")])];
    assert!(law_terms_from_items(&items).is_empty());
}

#[test]
fn law_commands_and_urls() {
    assert_eq!(law_command(""), LawCommand::Usage);
    assert_eq!(law_command("term"), LawCommand::MissingQuery("term".to_string()));
    assert_eq!(law_command("search 공소 시효"), LawCommand::Lookup("search".to_string(), "공소 시효".to_string()));
    assert_eq!(law_command("foo bar"), LawCommand::Usage);
    assert_eq!(
        law_api_url("my key", "공소 시효"),
        "https://apis.data.go.kr/1170000/legal-terminology/lglTrmSrch?serviceKey=my%20key&query=공소%20시효&numOfRows=10&pageNo=1&type=json"
    );
    assert!(law_results_text(&vec![]).contains("검색 결과가 없습니다."));
    let t = LawTerm { term: "선고".into(), definition: "정의".into(), law_name: "민사소송법".into() };
    let text = law_results_text(&vec![t]);
    assert!(text.contains("법령용어 검색 결과 (1 건)"));
    assert!(text.contains("  1."));
    assert!(text.contains("선고"));
    assert!(text.contains("민사소송법"));
}

// ── /press ──────────────────────────────────────────────────────────

#[test]
fn press_commands() {
    assert_eq!(press_command(""), PressCommand::Usage);
    assert_eq!(press_command("search"), PressCommand::SearchUsage);
    assert_eq!(press_command("search 반도체 수출"), PressCommand::Search("반도체 수출".to_string()));
    assert_eq!(press_command("latest"), PressCommand::Latest(5));
    assert_eq!(press_command("latest 100"), PressCommand::Latest(30));
    assert_eq!(press_command("latest 0"), PressCommand::Latest(1));
    assert_eq!(press_command("latest 12"), PressCommand::Latest(12));
    assert_eq!(press_command("view"), PressCommand::ViewUsage);
    assert_eq!(press_command("view x"), PressCommand::ViewInvalid);
    assert_eq!(press_command("view 0"), PressCommand::ViewInvalid);
    assert_eq!(press_command("view 3"), PressCommand::View(3));
    assert_eq!(press_command("other"), PressCommand::Usage);
    assert_eq!(split_at_space("a  b c "), ("a".to_string(), "b c".to_string()));
    assert_eq!(split_at_space("abc"), ("abc".to_string(), String::new()));
}

#[test]
fn press_urls_and_errors() {
    assert_eq!(
        press_api_url("k", Some("반도체 수출"), 10),
        "https://apis.data.go.kr/1371000/pressReleaseService/pressReleaseList?serviceKey=k&numOfRows=10&pageNo=1&keyword=반도체%20수출"
    );
    assert_eq!(
        press_api_url("k", None, 5),
        "https://apis.data.go.kr/1371000/pressReleaseService/pressReleaseList?serviceKey=k&numOfRows=5&pageNo=1"
    );
    assert_eq!(api_error("<items></items>"), None);
    assert_eq!(
        api_error("<returnReasonCode>30</returnReasonCode><returnAuthMsg>KEY ERROR</returnAuthMsg>"),
        Some("API 인증 오류: KEY ERROR".to_string())
    );
    assert_eq!(api_error("<returnReasonCode>99</returnReasonCode>"), Some("API 응답 오류".to_string()));
    assert_eq!(press_cache_path(3), ".journalist/press/press_3.json");
}

#[test]
fn press_texts() {
    let r = PressRelease {
        title: "수출 동향".into(),
        ministry: "산업부".into(),
        date: "2026-03-20".into(),
        link: "https://x".into(),
        summary: "요약".into(),
    };
    let text = press_results_text(&vec![r.clone()]);
    assert!(text.contains("수출 동향"));
    assert!(text.contains("산업부"));
    let cached = press_cache_item(&r);
    assert_eq!(cached.title, Some("수출 동향".to_string()));
    assert_eq!(cached.ministry, Some("산업부".to_string()));
    let view = press_view_text(&cached);
    assert!(view.contains("수출 동향"));
    assert!(view.contains("산업부"));
}

// ── /news ───────────────────────────────────────────────────────────

#[test]
fn news_requests() {
    assert_eq!(news_request(""), NewsRequest::Help);
    assert_eq!(news_request("help"), NewsRequest::Help);
    assert_eq!(news_request("save 2"), NewsRequest::Save(Some(2)));
    assert_eq!(news_request("save"), NewsRequest::Save(None));
    assert_eq!(news_request("save 0"), NewsRequest::Save(None));
    assert_eq!(news_request("반도체"), NewsRequest::Search);
}

#[test]
fn news_urls_and_texts() {
    assert!(naver_news_url("반도체", 10).contains("display=10"));
    assert!(web_news_url("a b").contains("q=a+b+site:news.naver.com"));
    let it = item("반도체 수출", "https://n/1", "설명", "2026-03-20");
    let clip = news_clip_content(&it);
    assert_eq!(clip, "# 반도체 수출\n\n- 날짜: 2026-03-20\n- 링크: https://n/1\n\n설명\n");
    let text = news_results_text(&vec![it]);
    assert!(text.contains("반도체 수출"));
    assert!(news_fallback_prompt("반도체").contains("반도체"));
    assert!(parse_web_news("", 5).is_empty());
}

// ── /wire ───────────────────────────────────────────────────────────

#[test]
fn wire_tagging_and_selection() {
    let items = vec![item("AI 반도체", "l1", "설명", ""), item("환율", "l2", "", "")];
    let tagged = tag_wire_items("연합뉴스", items);
    assert_eq!(tagged[0].description, "[연합뉴스] 설명");
    assert_eq!(tagged[1].description, "[연합뉴스]");
    let hits = select_wire_items(&tagged, Some("ai"), WIRE_MAX_ITEMS);
    assert_eq!(hits.len(), 1);
    assert_eq!(hits[0].link, "l1");
    assert_eq!(select_wire_items(&tagged, None, 1).len(), 1);
    assert_eq!(select_wire_items(&tagged, Some("연합뉴스"), 20).len(), 2);
    assert!(wire_results_text(&tagged).contains("AI 반도체"));
    assert!(wire_clip_content(&tagged[0]).contains("AI 반도체"));
}

#[test]
fn wire_requests() {
    assert_eq!(wire_request("help"), WireRequest::Help);
    assert_eq!(wire_request("save 3"), WireRequest::Save(Some(3)));
    assert_eq!(wire_request("save x"), WireRequest::Save(None));
    assert_eq!(wire_request(""), WireRequest::Latest);
    assert_eq!(wire_request("반도체"), WireRequest::Latest);
}

// ── /clip ───────────────────────────────────────────────────────────

#[test]
fn clip_requests_and_texts() {
    assert_eq!(clip_request(""), ClipRequest::Help);
    assert_eq!(clip_request("help"), ClipRequest::Help);
    assert_eq!(clip_request("list"), ClipRequest::List);
    assert_eq!(clip_request("https://a.kr/x extra"), ClipRequest::Fetch("https://a.kr/x".to_string()));
    assert_eq!(clip_request("a.kr/x"), ClipRequest::InvalidUrl("a.kr/x".to_string()));
    assert_eq!(
        clip_fetch_command("https://a.kr/it's"),
        "curl -sL --max-time 15 'https://a.kr/it'\\''s' | sed 's/<[^>]*>//g' | head -c 50000"
    );
    assert!(clip_prompt("https://a.kr/x", "본문").contains("본문"));
    let content = clip_file_content("https://a.kr/x", "요약 내용");
    assert!(content.contains("https://a.kr/x"));
    assert!(content.contains("요약 내용"));
    let names = vec!["2026-03-01_a.md".to_string(), "2026-03-05_b.md".to_string(), "2026-03-03_c.md".to_string()];
    assert_eq!(clip_list_order(&names), vec![1, 2, 0]);
    assert_eq!(clip_source(&content), "https://a.kr/x");
    assert_eq!(clip_source("no header"), "");
}
