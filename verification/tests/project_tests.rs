use newsroom_agent::project::topic_to_slug;

#[test]
fn topic_to_slug_basic() {
    assert_eq!(topic_to_slug("반도체 수출 동향", 50), "반도체-수출-동향");
}

#[test]
fn topic_to_slug_ascii() {
    assert_eq!(topic_to_slug("Hello World", 50), "hello-world");
}

#[test]
fn topic_to_slug_mixed() {
    assert_eq!(topic_to_slug("삼성전자 Q1 실적", 50), "삼성전자-q1-실적");
}

#[test]
fn topic_to_slug_punctuation() {
    assert_eq!(topic_to_slug("AI, 반도체... 전망!", 50), "ai-반도체-전망");
}

#[test]
fn topic_to_slug_truncation() {
    let long = "가".repeat(60);
    let slug = topic_to_slug(&long, 50);
    assert!(slug.len() <= 50 * 3); // Korean chars are 3 bytes
    assert!(slug.chars().count() <= 50);
}

#[test]
fn topic_to_slug_empty() {
    assert_eq!(topic_to_slug("", 50), "");
}

#[test]
fn topic_to_slug_only_punctuation() {
    assert_eq!(topic_to_slug("..., !!!", 50), "");
}

#[test]
fn topic_to_slug_cut_leaves_no_trailing_hyphen() {
    // "ab-cd" cut to 3 characters is "ab-", which loses its hyphen.
    assert_eq!(topic_to_slug("ab cd", 3), "ab");
    assert_eq!(topic_to_slug("ab cd", 4), "ab-c");
}

#[test]
fn topic_to_slug_is_idempotent() {
    let once = topic_to_slug("  Breaking: 속보!! Seoul -- 2026 ", 20);
    assert_eq!(topic_to_slug(&once, 20), once);
    assert!(!once.starts_with('-') && !once.ends_with('-'));
    assert!(!once.contains("--"));
}
