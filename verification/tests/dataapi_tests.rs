use newsroom_agent::data::{AssemblyBill, BigKindsItem, BigKindsTrend, DartItem};
use newsroom_agent::dataapi::{
    assembly_bill_block, assembly_bill_url, assembly_detail, assembly_recent_url, assembly_request,
    assembly_search_url, bigkinds_body, bigkinds_item_block, bigkinds_request, dart_item_block, dart_list_url,
    dart_report_url, dart_report_view, dart_request, dart_status_error, data_cache_name, is_ascii_digits,
    parse_watchlist, toggle_watch, trend_total, watchlist_json, AssemblyRequest, BigKindsRequest, DartRequest,
};

fn s(x: &str) -> String {
    x.to_string()
}

#[test]
fn bigkinds_routing() {
    assert_eq!(bigkinds_request("/bigkinds"), BigKindsRequest::Help);
    assert_eq!(bigkinds_request("/bigkinds help"), BigKindsRequest::Help);
    assert_eq!(bigkinds_request("/bigkinds search 반도체 수출"), BigKindsRequest::Search(Some(s("반도체 수출"))));
    assert_eq!(bigkinds_request("/bigkinds search"), BigKindsRequest::Search(None));
    assert_eq!(bigkinds_request("/bigkinds trend AI"), BigKindsRequest::Trend(Some(s("AI"))));
    assert_eq!(bigkinds_request("/bigkinds related  "), BigKindsRequest::Related(None));
    assert_eq!(bigkinds_request("/bigkinds related x"), BigKindsRequest::Related(Some(s("x"))));
    assert_eq!(bigkinds_request("/bigkinds 환율"), BigKindsRequest::Search(Some(s("환율"))));
}

#[test]
fn dart_and_assembly_routing() {
    assert_eq!(dart_request("/dart"), DartRequest::Help);
    assert_eq!(dart_request("/dart search 삼성전자"), DartRequest::Search(Some(s("삼성전자"))));
    assert_eq!(dart_request("/dart report"), DartRequest::Report(None));
    assert_eq!(dart_request("/dart watch"), DartRequest::Watch(None));
    assert_eq!(dart_request("/dart watch LG에너지솔루션"), DartRequest::Watch(Some(s("LG에너지솔루션"))));
    assert_eq!(dart_request("/dart 카카오"), DartRequest::Search(Some(s("카카오"))));
    assert_eq!(assembly_request("/assembly recent"), AssemblyRequest::Recent);
    assert_eq!(assembly_request("/assembly recent 5"), AssemblyRequest::Recent);
    assert_eq!(assembly_request("/assembly recentx"), AssemblyRequest::Search(Some(s("recentx"))));
    assert_eq!(assembly_request("/assembly bill 2200001"), AssemblyRequest::Bill(Some(s("2200001"))));
    assert_eq!(assembly_request("/assembly search"), AssemblyRequest::Search(None));
    assert_eq!(assembly_request("/assembly"), AssemblyRequest::Help);
    assert!(is_ascii_digits("20240315000123"));
    assert!(!is_ascii_digits("2024-03"));
}

#[test]
fn request_bodies_and_urls() {
    assert_eq!(
        bigkinds_body("K", "반도체 \"수출\"", "2026-02-20", "2026-03-22", Some(10)),
        "{\"access_key\":\"K\",\"argument\":{\"query\":\"반도체 \\\"수출\\\"\",\"published_at\":{\"from\":\"2026-02-20\",\"until\":\"2026-03-22\"},\"provider\":[],\"category\":[],\"sort\":{\"date\":\"desc\"},\"hilight\":200,\"return_from\":0,\"return_size\":10}}"
    );
    assert_eq!(
        bigkinds_body("K", "AI", "a", "b", None),
        "{\"access_key\":\"K\",\"argument\":{\"query\":\"AI\",\"published_at\":{\"from\":\"a\",\"until\":\"b\"},\"provider\":[]}}"
    );
    assert_eq!(
        dart_list_url("K", "삼성", "2026-02-20", "2026-03-22"),
        "https://opendart.fss.or.kr/api/list.json?crtfc_key=K&corp_name=%EC%82%BC%EC%84%B1&bgn_de=20260220&end_de=20260322&page_count=20&sort=date&sort_mth=desc"
    );
    assert_eq!(dart_report_url("K", "123"), "https://opendart.fss.or.kr/api/document.xml?crtfc_key=K&rcept_no=123");
    assert_eq!(
        assembly_search_url("K", "a b"),
        "https://open.assembly.go.kr/portal/openapi/nzmimeepazxkubdpn?KEY=K&Type=xml&pSize=20&BILL_NAME=a%20b"
    );
    assert!(assembly_recent_url("K").ends_with("&Type=xml&pSize=20&AGE=22"));
    assert!(assembly_bill_url("K", "22").ends_with("&Type=xml&pSize=5&BILL_NO=22"));
    assert_eq!(data_cache_name("2026-03-22", "search", "반도체 수출"), "2026-03-22_search_반도체-수출.json");
}

#[test]
fn dart_status_errors() {
    assert_eq!(dart_status_error("{\"status\":\"000\",\"message\":\"정상\"}"), None);
    assert_eq!(dart_status_error("{\"status\":\"013\",\"message\":\"없음\"}"), None);
    assert_eq!(
        dart_status_error("{\"status\":\"020\",\"message\":\"요청 제한 초과\"}"),
        Some(s("DART API 오류 (020): 요청 제한 초과"))
    );
    assert_eq!(dart_status_error("{\"list\":[]}"), None);
}

#[test]
fn result_blocks() {
    let it = BigKindsItem { title: s("제목"), provider: s("조선일보"), date: s("2026-03-29"), url: s(""), summary: s("요약") };
    let b = bigkinds_item_block(1, &it);
    assert!(b.contains("[1]"));
    assert!(b.contains("조선일보 | 2026-03-29"));
    assert!(b.contains("요약"));
    assert!(b.ends_with("\n\n"));
    let d = DartItem { corp_name: s("삼성전자"), report_nm: s("분기보고서"), rcept_no: s("2026"), rcept_dt: s("20260315"), flr_nm: s("") };
    let db = dart_item_block(2, &d);
    assert!(db.contains("삼성전자 | 2026-03-15"));
    assert!(db.contains("공시번호: 2026"));
    let bill = AssemblyBill {
        bill_id: s("PRC_1"),
        bill_no: s("2200001"),
        bill_name: s("반도체특별법"),
        proposer: s("홍길동의원"),
        propose_dt: s("20260301"),
        committee: s(""),
        proc_result: s(""),
    };
    let bb = assembly_bill_block(1, &bill);
    assert!(bb.contains("홍길동의원 | 2026-03-01"));
    assert!(bb.contains("의안번호: 2200001"));
    assert!(!bb.contains("처리상태"));
    let detail = assembly_detail(&bill);
    assert!(detail.contains("법안 상세 정보 (의안번호: 2200001)"));
    assert!(detail.contains("발의일:"));
    assert!(detail.contains("billId=PRC_1"));
    assert!(!detail.contains("소관위"));
}

#[test]
fn watchlist_roundtrip_and_toggle() {
    assert_eq!(parse_watchlist("[\"삼성전자\", \"LG\" ,\"\"]"), vec![s("삼성전자"), s("LG")]);
    assert_eq!(parse_watchlist("not a list"), Vec::<String>::new());
    assert_eq!(parse_watchlist("[]"), Vec::<String>::new());
    let mut list = vec![s("삼성전자")];
    assert!(toggle_watch(&mut list, "카카오"));
    assert_eq!(list, vec![s("삼성전자"), s("카카오")]);
    assert_eq!(watchlist_json(&list), "[\"삼성전자\",\"카카오\"]");
    assert!(!toggle_watch(&mut list, "카카오"));
    assert_eq!(list, vec![s("삼성전자")]);
    assert_eq!(parse_watchlist(&watchlist_json(&list)), list);
}

#[test]
fn report_view_and_trend_total() {
    assert_eq!(dart_report_view("<p></p>"), None);
    let (lines, more) = dart_report_view("<b>제목</b>\n\n  본문 첫 줄  \n").unwrap();
    assert_eq!(lines, vec![s("제목"), s("본문 첫 줄")]);
    assert!(!more);
    let long = "가\n".repeat(2000);
    let (ls, more2) = dart_report_view(&long).unwrap();
    assert_eq!(ls.len(), 80);
    assert!(more2);
    let trends = vec![
        BigKindsTrend { date: s("a"), count: 42 },
        BigKindsTrend { date: s("b"), count: 55 },
    ];
    assert_eq!(trend_total(&trends), Some(97));
    let huge = vec![BigKindsTrend { date: s("a"), count: u64::MAX }, BigKindsTrend { date: s("b"), count: 1 }];
    assert_eq!(trend_total(&huge), None);
}
