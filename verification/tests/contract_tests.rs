use newsroom_agent::calendar::{add_business_days, epoch_days_to_date};
use newsroom_agent::data::{format_trend_chart, parse_bigkinds_search, parse_bigkinds_trend, url_encode, BigKindsTrend};
use newsroom_agent::editorial::{is_valid_time, time_diff_minutes};
use newsroom_agent::git::{pr_create_step, PrCreate, PrCreateAction, PrCreateEvent};
use newsroom_agent::news::{save_pick, SavePick};
use newsroom_agent::research::strip_html_tags;
use newsroom_agent::scan::find_matching_bracket;
use newsroom_agent::style::{DIM, RESET};

#[test]
fn valid_time_needs_two_digits_each_side() {
    assert!(is_valid_time("09:30"));
    assert!(is_valid_time("23:59"));
    assert!(!is_valid_time("+1:30"));
    assert!(!is_valid_time("9:30"));
    assert!(!is_valid_time("09:+5"));
    assert!(!is_valid_time("24:00"));
    assert!(!is_valid_time("12:60"));
    assert!(!is_valid_time("1２:30"));
}

#[test]
fn strip_html_decodes_each_entity_once() {
    assert_eq!(strip_html_tags("&amp;lt;b&amp;gt;"), "&lt;b&gt;");
    assert_eq!(strip_html_tags("a &lt;b&gt; &amp; &quot;c&quot; &apos;d&apos;"), "a <b> & \"c\" 'd'");
    assert_eq!(strip_html_tags("<b>굵게</b> &amp;amp;"), "굵게 &amp;");
}

#[test]
fn trend_count_reads_plain_numbers() {
    let json = r#"{"result":{"timeline":[{"date":"2026-03-01","count":42}]}}"#;
    let t = parse_bigkinds_trend(json);
    assert_eq!(t.len(), 1);
    assert_eq!(t[0].date, "2026-03-01");
    assert_eq!(t[0].count, 42);
    let quoted = r#"{"result":{"timeline":[{"date":"2026-03-02","count":"7"}]}}"#;
    let q = parse_bigkinds_trend(quoted);
    assert_eq!(q.len(), 1);
    assert_eq!(q[0].count, 7);
}

#[test]
fn save_pick_checks_number_then_list_then_range() {
    assert_eq!(save_pick(None, 3), SavePick::BadNumber);
    assert_eq!(save_pick(Some(0), 3), SavePick::BadNumber);
    assert_eq!(save_pick(None, 0), SavePick::BadNumber);
    assert_eq!(save_pick(Some(1), 0), SavePick::NoResults);
    assert_eq!(save_pick(Some(4), 3), SavePick::OutOfRange);
    assert_eq!(save_pick(Some(1), 3), SavePick::Item(0));
    assert_eq!(save_pick(Some(3), 3), SavePick::Item(2));
}

#[test]
fn pr_create_not_in_repo() {
    let (s, a) = pr_create_step(
        PrCreate::Start { draft: false },
        PrCreateEvent::Branch { branch: None, base: "main".to_string() },
    );
    assert!(matches!(s, PrCreate::Finished));
    assert!(matches!(a, PrCreateAction::NotInRepo));
}

#[test]
fn pr_create_on_base_branch() {
    let (s, a) = pr_create_step(
        PrCreate::Start { draft: false },
        PrCreateEvent::Branch { branch: Some("main".to_string()), base: "main".to_string() },
    );
    assert!(matches!(s, PrCreate::Finished));
    match a {
        PrCreateAction::OnBase { base } => assert_eq!(base, "main"),
        _ => panic!("expected OnBase"),
    }
}

#[test]
fn pr_create_no_changes() {
    let (s, a) = pr_create_step(
        PrCreate::Start { draft: true },
        PrCreateEvent::Branch { branch: Some("feat".to_string()), base: "main".to_string() },
    );
    match a {
        PrCreateAction::ReadChanges { base } => assert_eq!(base, "main"),
        _ => panic!("expected ReadChanges"),
    }
    let (s2, a2) = pr_create_step(
        s,
        PrCreateEvent::Changes { diff: "  \n".to_string(), commits: String::new() },
    );
    assert!(matches!(s2, PrCreate::Finished));
    match a2 {
        PrCreateAction::NoChanges { branch, base } => {
            assert_eq!(branch, "feat");
            assert_eq!(base, "main");
        }
        _ => panic!("expected NoChanges"),
    }
}

#[test]
fn pr_create_full_flow() {
    let (s, _) = pr_create_step(
        PrCreate::Start { draft: true },
        PrCreateEvent::Branch { branch: Some("feat".to_string()), base: "main".to_string() },
    );
    let (s, a) = pr_create_step(
        s,
        PrCreateEvent::Changes { diff: "diff --git a b".to_string(), commits: "abc one\n\ndef two\n".to_string() },
    );
    match a {
        PrCreateAction::Describe { line } => {
            assert_eq!(line, format!("{DIM}  Branch: feat → main (2 commits){RESET}"));
        }
        _ => panic!("expected Describe"),
    }
    let (s3, a3) = pr_create_step(
        s,
        PrCreateEvent::Description { parsed: Some(("제목".to_string(), "본문".to_string())) },
    );
    assert!(matches!(s3, PrCreate::Finished));
    match a3 {
        PrCreateAction::Create { args, title } => {
            assert_eq!(title, "제목");
            assert_eq!(
                args,
                vec!["pr", "create", "--title", "제목", "--body", "본문", "--base", "main", "--draft"]
            );
        }
        _ => panic!("expected Create"),
    }
}

#[test]
fn pr_create_unreadable_description_and_stray_event() {
    let (s, a) = pr_create_step(
        PrCreate::Described { draft: false, base: "main".to_string() },
        PrCreateEvent::Description { parsed: None },
    );
    assert!(matches!(s, PrCreate::Finished));
    assert!(matches!(a, PrCreateAction::Unreadable));
    let (s2, a2) = pr_create_step(
        PrCreate::Start { draft: false },
        PrCreateEvent::Description { parsed: None },
    );
    assert!(matches!(s2, PrCreate::Start { draft: false }));
    assert!(matches!(a2, PrCreateAction::Ignore));
}

#[test]
fn bigkinds_summary_is_at_most_201_chars() {
    let long = "가".repeat(300);
    let json = format!(
        r#"{{"result":{{"docs":[{{"TITLE":"제목","CONTENT":"{long}","PROVIDER":"p","DATE":"20260301"}}]}}}}"#
    );
    let items = parse_bigkinds_search(&json);
    assert_eq!(items.len(), 1);
    assert_eq!(items[0].summary.chars().count(), 201);
    assert!(items[0].summary.ends_with('…'));
    let tagged = format!(r#"{{"docs":[{{"TITLE":"t","CONTENT":"<b>{}</b>"}}]}}"#, "a".repeat(250));
    let items = parse_bigkinds_search(&tagged);
    assert!(items[0].summary.chars().count() <= 201);
}

#[test]
fn url_encode_is_ascii_with_three_chars_per_reserved_byte() {
    let s = "반도체 a-b";
    let e = url_encode(s);
    assert!(e.is_ascii());
    let reserved = s.bytes().filter(|b| !(b.is_ascii_alphanumeric() || b"-_.~".contains(b))).count();
    assert_eq!(e.len(), s.len() + 2 * reserved);
    assert_eq!(url_encode("a b"), "a%20b");
}

#[test]
fn trend_bars_fill_thirty_and_follow_counts() {
    let ts = vec![
        BigKindsTrend { date: "d1".to_string(), count: 5 },
        BigKindsTrend { date: "d2".to_string(), count: 10 },
        BigKindsTrend { date: "d3".to_string(), count: 0 },
    ];
    let chart = format_trend_chart(&ts);
    let lines: Vec<&str> = chart.lines().collect();
    assert_eq!(lines.len(), 3);
    let bars: Vec<usize> = lines.iter().map(|l| l.chars().filter(|c| *c == '█').count()).collect();
    for l in &lines {
        let full = l.chars().filter(|c| *c == '█').count();
        let pad = l.chars().filter(|c| *c == '░').count();
        assert_eq!(full + pad, 30);
    }
    assert_eq!(bars, vec![15, 30, 0]);
}

#[test]
fn time_differences_add_up_and_follow_text_order() {
    let ab = time_diff_minutes("09:30", "08:15").unwrap();
    let bc = time_diff_minutes("08:15", "07:00").unwrap();
    assert_eq!(time_diff_minutes("09:30", "07:00"), Some(ab + bc));
    assert!("08:15" <= "09:30");
    assert!(time_diff_minutes("08:15", "09:30").unwrap() <= 0);
}

#[test]
fn business_days_compose() {
    let two = add_business_days("2026-03-20", 2).unwrap();
    let then_three = add_business_days(&two, 3).unwrap();
    assert_eq!(add_business_days("2026-03-20", 5).unwrap(), then_three);
    assert_eq!(two, "2026-03-24");
}

#[test]
fn consecutive_day_counts_are_consecutive_dates() {
    assert_eq!(epoch_days_to_date(58), "1970-02-28");
    assert_eq!(epoch_days_to_date(59), "1970-03-01");
    assert_eq!(epoch_days_to_date(364), "1970-12-31");
    assert_eq!(epoch_days_to_date(365), "1971-01-01");
    assert_eq!(epoch_days_to_date(789), "1972-02-29");
    assert_eq!(epoch_days_to_date(790), "1972-03-01");
}

#[test]
fn url_encode_decodes_back() {
    let s = "반도체 수출 a-b_c.d~e/f";
    let e = url_encode(s);
    let bytes = e.as_bytes();
    let mut out = Vec::new();
    let mut i = 0;
    while i < bytes.len() {
        if bytes[i] == b'%' && i + 2 < bytes.len() {
            let h = std::str::from_utf8(&bytes[i + 1..i + 3]).unwrap();
            out.push(u8::from_str_radix(h, 16).unwrap());
            i += 3;
        } else {
            out.push(bytes[i]);
            i += 1;
        }
    }
    assert_eq!(out, s.as_bytes());
}

#[test]
fn matching_bracket_is_a_byte_offset_before_a_boundary() {
    let s = "[\"가]\"]뒤";
    let r = find_matching_bracket(s);
    assert_eq!(r, 7);
    assert_eq!(s.as_bytes()[r], b']');
    assert!(s.is_char_boundary(r + 1));
    let open = "[\"가";
    let r2 = find_matching_bracket(open);
    assert_eq!(r2, open.len() - 1);
    assert!(open.is_char_boundary(r2 + 1));
}
