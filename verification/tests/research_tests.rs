use newsroom_agent::research::{
    extract_xml_tag, json_extract_string, parse_naver_news_json, parse_press_xml,
    parse_rss_items, strip_html_tags, xml_extract_tag,
};

#[test]
fn parse_news_results_valid_json() {
    let json = r#"{"items":[
            {"title":"<b>반도체</b> 수출 호조","link":"https://news.example.com/1","description":"반도체 수출이...","pubDate":"Thu, 19 Mar 2026 10:00:00 +0900"},
            {"title":"삼성 <b>반도체</b> 신공장","link":"https://news.example.com/2","description":"삼성전자가...","pubDate":"Wed, 18 Mar 2026 09:00:00 +0900"}
        ]}"#;
    let results = parse_naver_news_json(json);
    assert_eq!(results.len(), 2);
    assert_eq!(results[0].title, "반도체 수출 호조"); // HTML tags stripped
    assert_eq!(results[0].link, "https://news.example.com/1");
    assert!(results[0].description.contains("반도체"));
    assert!(results[0].pub_date.contains("2026"));
}

#[test]
fn parse_news_results_empty() {
    let json = r#"{"items":[]}"#;
    let results = parse_naver_news_json(json);
    assert!(results.is_empty());
}

#[test]
fn parse_news_results_invalid_json() {
    let results = parse_naver_news_json("not json");
    assert!(results.is_empty());
}

#[test]
fn parse_news_skips_items_without_title_and_link() {
    let json = r#"{"items":[{"description":"only text"},{"title":"t","link":""}]}"#;
    let results = parse_naver_news_json(json);
    assert_eq!(results.len(), 1);
    assert_eq!(results[0].title, "t");
    assert_eq!(results[0].pub_date, "");
}

#[test]
fn strip_html_tags_basic() {
    assert_eq!(strip_html_tags("<b>hello</b>"), "hello");
    assert_eq!(strip_html_tags("no tags"), "no tags");
    assert_eq!(strip_html_tags("<a href=\"x\">link</a>"), "link");
    assert_eq!(strip_html_tags("&amp; &lt; &gt; &quot;"), "& < > \"");
}

#[test]
fn json_extract_string_reads_raw_value() {
    assert_eq!(
        json_extract_string(r#"{"a": "x\"y", "b":"z"}"#, "a"),
        Some("x\\\"y".to_string())
    );
    assert_eq!(json_extract_string(r#"{"a": 1}"#, "a"), None);
}

#[test]
fn parse_rss_items_basic() {
    let xml = r#"<?xml version="1.0" encoding="UTF-8"?>
<rss version="2.0">
<channel>
<title>Test Feed</title>
<item>
<title>속보: 반도체 수출 증가</title>
<link>https://example.com/1</link>
<description>반도체 수출이 크게 증가했다</description>
<pubDate>Sun, 22 Mar 2026 14:00:00 +0900</pubDate>
</item>
<item>
<title>경제 뉴스</title>
<link>https://example.com/2</link>
<description>경제 관련 소식</description>
<pubDate>Sun, 22 Mar 2026 13:00:00 +0900</pubDate>
</item>
</channel>
</rss>"#;
    let items = parse_rss_items(xml);
    assert_eq!(items.len(), 2);
    assert_eq!(items[0].title, "속보: 반도체 수출 증가");
    assert_eq!(items[0].link, "https://example.com/1");
    assert_eq!(items[0].description, "반도체 수출이 크게 증가했다");
    assert!(items[0].pub_date.contains("22 Mar 2026"));
    assert_eq!(items[1].title, "경제 뉴스");
}

#[test]
fn parse_rss_items_cdata() {
    let xml = r#"<rss><channel>
<item>
<title><![CDATA[CDATA 제목 테스트]]></title>
<link>https://example.com/cdata</link>
<description><![CDATA[<b>HTML 포함</b> 설명]]></description>
<pubDate>Sun, 22 Mar 2026 12:00:00 +0900</pubDate>
</item>
</channel></rss>"#;
    let items = parse_rss_items(xml);
    assert_eq!(items.len(), 1);
    assert_eq!(items[0].title, "CDATA 제목 테스트");
    // HTML inside CDATA should be stripped
    assert_eq!(items[0].description, "HTML 포함 설명");
}

#[test]
fn parse_rss_items_empty() {
    let xml = r#"<rss><channel><title>Empty</title></channel></rss>"#;
    let items = parse_rss_items(xml);
    assert!(items.is_empty());
}

#[test]
fn parse_rss_items_missing_fields() {
    let xml = r#"<rss><channel>
<item>
<title>제목만 있음</title>
</item>
</channel></rss>"#;
    let items = parse_rss_items(xml);
    assert_eq!(items.len(), 1);
    assert_eq!(items[0].title, "제목만 있음");
    assert!(items[0].link.is_empty());
    assert!(items[0].description.is_empty());
}

#[test]
fn parse_rss_items_with_attributes_and_unclosed_item() {
    // A plain `<item>` is looked for first, so the attributed item before it
    // is passed over, and the unclosed item ends the reading.
    let xml = r#"<item id="1"><title>A</title></item><item><title>B</title>"#;
    assert_eq!(parse_rss_items(xml).len(), 0);
    let xml = r#"<item id="1"><title>A</title></item>"#;
    let items = parse_rss_items(xml);
    assert_eq!(items.len(), 1);
    assert_eq!(items[0].title, "A");
}

#[test]
fn xml_extract_tag_basic() {
    assert_eq!(
        xml_extract_tag("<title>Hello</title>", "title"),
        Some("Hello".to_string())
    );
}

#[test]
fn xml_extract_tag_cdata() {
    assert_eq!(
        xml_extract_tag("<title><![CDATA[World]]></title>", "title"),
        Some("World".to_string())
    );
}

#[test]
fn xml_extract_tag_missing() {
    assert_eq!(xml_extract_tag("<foo>bar</foo>", "title"), None);
}

#[test]
fn parse_press_xml_basic() {
    let xml = r#"
        <response>
        <body>
        <items>
        <item>
        <title>테스트 보도자료 제목</title>
        <SubName1>기획재정부</SubName1>
        <ModDate>2026-03-21</ModDate>
        <DetailUrl>https://example.com/press/1</DetailUrl>
        <SubContent1>경제 정책 관련 보도자료입니다.</SubContent1>
        </item>
        <item>
        <title>두 번째 보도자료</title>
        <SubName1>과학기술정보통신부</SubName1>
        <ModDate>2026-03-20</ModDate>
        <DetailUrl>https://example.com/press/2</DetailUrl>
        <SubContent1>AI 정책 발표</SubContent1>
        </item>
        </items>
        </body>
        </response>
        "#;
    let results = parse_press_xml(xml);
    assert_eq!(results.len(), 2);
    assert_eq!(results[0].title, "테스트 보도자료 제목");
    assert_eq!(results[0].ministry, "기획재정부");
    assert_eq!(results[0].date, "2026-03-21");
    assert_eq!(results[0].link, "https://example.com/press/1");
    assert!(results[0].summary.contains("경제 정책"));
    assert_eq!(results[1].title, "두 번째 보도자료");
    assert_eq!(results[1].ministry, "과학기술정보통신부");
}

#[test]
fn parse_press_xml_empty() {
    let xml = "<response><body><items></items></body></response>";
    let results = parse_press_xml(xml);
    assert!(results.is_empty());
}

#[test]
fn parse_press_xml_cdata() {
    let xml = r#"
        <item>
        <title><![CDATA[CDATA 제목 테스트]]></title>
        <SubName1>국토교통부</SubName1>
        <ModDate>2026-03-19</ModDate>
        <DetailUrl>https://example.com/3</DetailUrl>
        <SubContent1><![CDATA[CDATA 내용 테스트]]></SubContent1>
        </item>
        "#;
    let results = parse_press_xml(xml);
    assert_eq!(results.len(), 1);
    assert_eq!(results[0].title, "CDATA 제목 테스트");
    assert_eq!(results[0].summary, "CDATA 내용 테스트");
}

#[test]
fn press_fields_fall_back_to_other_tags() {
    let xml = "<item><title>T</title><Ministry>M</Ministry><Date>D</Date><OriginalUrl>U</OriginalUrl><Description><b>S</b></Description></item>";
    let results = parse_press_xml(xml);
    assert_eq!(results.len(), 1);
    assert_eq!(results[0].ministry, "M");
    assert_eq!(results[0].date, "D");
    assert_eq!(results[0].link, "U");
    assert_eq!(results[0].summary, "S");
}

#[test]
fn extract_xml_tag_strips_tags_and_needs_closing() {
    assert_eq!(extract_xml_tag("<a> <i>x</i> </a>", "a"), Some("x".to_string()));
    assert_eq!(extract_xml_tag("<a>x", "a"), None);
}

use newsroom_agent::research::{
    clip_file_path, extract_naver_news_headlines, factcheck_file_path_with_date, news_clip_path,
    research_file_path_with_date, rss_cache_filename, sns_cache_dir, sns_cache_path,
    sns_cache_path_on, trend_file_path_with_date, NewsItem, WIRE_FEEDS,
};

#[test]
fn research_file_path_with_topic() {
    let path = research_file_path_with_date("반도체 수출 동향", "2026-03-17");
    assert_eq!(path, ".journalist/research/2026-03-17_반도체-수출-동향.md");
}

#[test]
fn research_file_path_empty_topic() {
    let path = research_file_path_with_date("", "2026-03-17");
    assert_eq!(path, ".journalist/research/2026-03-17_research.md");
}

#[test]
fn research_file_path_contains_date_and_slug() {
    let path_str = research_file_path_with_date("경제 전망 보고서", "2026-06-01");
    assert!(path_str.contains("2026-06-01"));
    assert!(path_str.contains("경제-전망-보고서"));
    assert!(path_str.starts_with(".journalist/research/"));
}

#[test]
fn factcheck_file_path_with_claim() {
    let path_str = factcheck_file_path_with_date("한국 반도체 수출이 사상 최대", "2026-03-18");
    assert!(path_str.starts_with(".journalist/factcheck/"));
    assert!(path_str.contains("2026-03-18"));
    assert!(path_str.contains("한국-반도체-수출이-사상-최대"));
    assert!(path_str.ends_with(".md"));
}

#[test]
fn factcheck_file_path_empty_claim() {
    let path = factcheck_file_path_with_date("", "2026-03-18");
    assert_eq!(path, ".journalist/factcheck/2026-03-18_factcheck.md");
}

#[test]
fn trend_file_path_with_keyword() {
    let path = trend_file_path_with_date("반도체 수출", "2026-03-20");
    assert_eq!(path, ".journalist/trends/2026-03-20_반도체-수출.md");
}

#[test]
fn trend_file_path_empty_keyword() {
    let path = trend_file_path_with_date("", "2026-03-20");
    assert_eq!(path, ".journalist/trends/2026-03-20_trend.md");
}

#[test]
fn trend_file_path_contains_date_and_slug() {
    let path_str = trend_file_path_with_date("AI 규제 정책", "2026-06-01");
    assert!(path_str.contains("2026-06-01"));
    assert!(path_str.contains("ai-규제-정책"));
    assert!(path_str.starts_with(".journalist/trends/"));
}

#[test]
fn clip_file_path_basic() {
    let path = clip_file_path("https://news.example.com/article/123", "2026-03-18");
    assert_eq!(path, ".journalist/clips/2026-03-18_news-example-com-article-123.md");
}

#[test]
fn clip_file_path_long_url_truncated() {
    let long_url = format!("https://example.com/{}", "a".repeat(200));
    let path = clip_file_path(&long_url, "2026-03-18");
    let filename = path.rsplit('/').next().unwrap();
    // date prefix (11) + slug (<=80) + .md (3) = <=94
    assert!(filename.len() <= 95, "filename too long: {filename}");
}

#[test]
fn clip_file_path_special_chars() {
    let path = clip_file_path("https://news.com/article?id=42&lang=ko#top", "2026-03-18");
    let filename = path.rsplit('/').next().unwrap();
    assert!(!filename.contains('?'));
    assert!(!filename.contains('&'));
    assert!(!filename.contains('#'));
    assert_eq!(filename, "2026-03-18_news-com-article-id-42-lang-ko-top.md");
}

#[test]
fn news_save_path_generation() {
    let items = vec![NewsItem {
        title: "테스트 기사".to_string(),
        link: "https://news.example.com/article/42".to_string(),
        description: "기사 요약".to_string(),
        pub_date: "2026-03-19".to_string(),
    }];
    let path = news_clip_path(&items[0], "2026-03-19");
    assert!(path.starts_with(".journalist/clips/"));
    assert!(path.ends_with(".md"));
}

#[test]
fn sns_cache_path_format() {
    let path_str = sns_cache_path("search", "반도체");
    assert!(path_str.starts_with(".journalist/sns/"));
    assert!(path_str.contains("search_"));
    assert!(path_str.ends_with(".md"));
}

#[test]
fn sns_cache_path_sanitizes_spaces() {
    let path = sns_cache_path("buzz", "AI 규제");
    let filename = path.rsplit('/').next().unwrap();
    assert!(filename.starts_with("buzz_AI_"), "unexpected filename: {filename}");
    assert!(!filename.contains(' '));
    assert_eq!(
        sns_cache_path_on("buzz", "AI 규제!", "2026-03-20"),
        ".journalist/sns/buzz_AI_규제__2026-03-20.md"
    );
}

#[test]
fn sns_cache_dir_is_correct() {
    assert_eq!(sns_cache_dir(), ".journalist/sns");
}

#[test]
fn wire_feeds_configured() {
    assert!(WIRE_FEEDS.len() >= 3);
    for &(name, url) in WIRE_FEEDS.iter() {
        assert!(!name.is_empty());
        assert!(url.starts_with("https://"));
    }
}

#[test]
fn rss_cache_filename_from_url() {
    let slug = rss_cache_filename("https://www.yna.co.kr/rss/news.xml");
    assert!(!slug.is_empty());
    assert!(!slug.contains("https"));
    let slug2 = rss_cache_filename("https://newsis.com/rss/all_rss.xml");
    assert_ne!(slug, slug2);
    assert_eq!(rss_cache_filename("https://"), "feed");
}

#[test]
fn naver_headlines_are_decoded_and_capped() {
    let html = r##"<a class="news_tit" title="A &amp; B">x</a><a class="news_tit" href="#">no title here</a><a class="news_tit" title="C&#39;s">y</a><a class="news_tit" title="D">z</a>"##;
    assert_eq!(extract_naver_news_headlines(html, 2), vec!["A & B".to_string(), "C's".to_string()]);
    assert_eq!(extract_naver_news_headlines(html, 10).len(), 3);
    assert!(extract_naver_news_headlines("<p>none</p>", 5).is_empty());
}
