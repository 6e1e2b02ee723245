use newsroom_agent::sources::{
    beat_bar_len, beat_matches, beat_strength, compute_beat_distribution, edit_source,
    extract_beat_option, find_gap_beats, gap_level, new_source, remove_source,
    sort_beats_by_count, source_matches, Source, SourceError,
};

fn src(name: &str, org: &str, contact: &str, note: &str, beat: Option<&str>) -> Source {
    Source {
        name: Some(name.to_string()),
        org: Some(org.to_string()),
        contact: Some(contact.to_string()),
        note: Some(note.to_string()),
        beat: beat.map(|b| b.to_string()),
    }
}

fn add(list: &mut Vec<Source>, args: &str) {
    list.push(new_source(args).expect("name, org and contact"));
}

fn lookup(dist: &[(String, usize)], key: &str) -> Option<usize> {
    dist.iter().find(|(k, _)| k == key).map(|(_, c)| *c)
}

#[test]
fn sources_add_creates_entry() {
    let mut sources = Vec::new();
    add(&mut sources, "홍길동 산업부 010-1234-5678 반도체 담당");
    assert_eq!(sources.len(), 1);
    assert_eq!(sources[0].name.as_deref(), Some("홍길동"));
    assert_eq!(sources[0].org.as_deref(), Some("산업부"));
    assert_eq!(sources[0].contact.as_deref(), Some("010-1234-5678"));
    assert_eq!(sources[0].note.as_deref(), Some("반도체 담당"));
}

#[test]
fn sources_remove_deletes_by_index() {
    let mut sources = Vec::new();
    add(&mut sources, "김기자 조선일보 010-0000-0001");
    add(&mut sources, "이기자 중앙일보 010-0000-0002");
    add(&mut sources, "박기자 동아일보 010-0000-0003");
    assert_eq!(sources.len(), 3);
    let removed = remove_source(&mut sources, "2").unwrap();
    assert_eq!(removed.name.as_deref(), Some("이기자"));
    assert_eq!(sources.len(), 2);
    assert_eq!(sources[0].name.as_deref(), Some("김기자"));
    assert_eq!(sources[1].name.as_deref(), Some("박기자"));
}

#[test]
fn sources_remove_out_of_range_does_not_crash() {
    let mut sources = Vec::new();
    add(&mut sources, "홍길동 산업부 010-1234-5678");
    let before_len = sources.len();
    assert_eq!(remove_source(&mut sources, "5").unwrap_err(), SourceError::OutOfRange);
    assert_eq!(sources.len(), before_len);
    assert_eq!(remove_source(&mut sources, "0").unwrap_err(), SourceError::InvalidNumber);
    assert_eq!(remove_source(&mut sources, "x").unwrap_err(), SourceError::InvalidNumber);
}

#[test]
fn sources_edit_updates_field() {
    let mut sources = Vec::new();
    add(&mut sources, "홍길동 산업부 010-1234-5678 원래 메모");
    edit_source(&mut sources, "1 org 기획재정부").unwrap();
    assert_eq!(sources[0].org.as_deref(), Some("기획재정부"));
    // Other fields unchanged
    assert_eq!(sources[0].name.as_deref(), Some("홍길동"));
    assert_eq!(sources[0].contact.as_deref(), Some("010-1234-5678"));
}

#[test]
fn sources_edit_note_with_spaces() {
    let mut sources = Vec::new();
    add(&mut sources, "홍길동 산업부 010-1234-5678");
    edit_source(&mut sources, "1 note 반도체 정책 전문가").unwrap();
    assert_eq!(sources[0].note.as_deref(), Some("반도체 정책 전문가"));
}

#[test]
fn sources_edit_invalid_field_does_not_modify() {
    let mut sources = Vec::new();
    add(&mut sources, "홍길동 산업부 010-1234-5678");
    assert_eq!(
        edit_source(&mut sources, "1 email x@y").unwrap_err(),
        SourceError::UnknownField
    );
    assert_eq!(sources[0].name.as_deref(), Some("홍길동"));
    assert_eq!(edit_source(&mut sources, "1 org").unwrap_err(), SourceError::Usage);
    assert_eq!(edit_source(&mut sources, "3 org X").unwrap_err(), SourceError::OutOfRange);
}

#[test]
fn sources_add_rejects_fewer_than_3_args() {
    assert!(new_source("홍길동 산업부").is_none());
    let exact_three = new_source("홍길동 산업부 010-1234").unwrap();
    assert_eq!(exact_three.note.as_deref(), Some(""));
    let with_note = new_source("홍길동 산업부 010-1234 반도체 정책 담당").unwrap();
    assert_eq!(with_note.note.as_deref(), Some("반도체 정책 담당"));
}

#[test]
fn source_matches_case_insensitive() {
    let entry = Source {
        name: Some("Hong GilDong".to_string()),
        org: Some("Ministry of Trade".to_string()),
        contact: Some("010-1234".to_string()),
        note: Some("Semiconductor policy".to_string()),
        beat: None,
    };
    assert!(source_matches(&entry, "hong"));
    assert!(source_matches(&entry, "ministry"));
    assert!(source_matches(&entry, "semiconductor"));
    assert!(source_matches(&entry, "gildong"));
    assert!(!source_matches(&entry, "없는검색어"));
}

#[test]
fn source_matches_korean() {
    let entry = Source {
        name: Some("홍길동".to_string()),
        org: Some("산업통상자원부".to_string()),
        contact: Some("010-1234".to_string()),
        note: Some("반도체 정책".to_string()),
        beat: None,
    };
    assert!(source_matches(&entry, "홍길동"));
    assert!(source_matches(&entry, "반도체"));
    assert!(source_matches(&entry, "산업"));
    assert!(!source_matches(&entry, "기획재정부"));
}

#[test]
fn sources_search_via_tempfile() {
    let mut sources = Vec::new();
    add(&mut sources, "홍길동 산업부 010-1234 반도체");
    add(&mut sources, "김영희 기획부 010-5678 예산");
    add(&mut sources, "Park IT부 010-9999 Server admin");
    let query_lower = "server".to_lowercase();
    let matches: Vec<_> = sources.iter().filter(|s| source_matches(s, &query_lower)).collect();
    assert_eq!(matches.len(), 1);
    assert_eq!(matches[0].name.as_deref(), Some("Park"));
    let query_lower = "반도체".to_lowercase();
    let matches: Vec<_> = sources.iter().filter(|s| source_matches(s, &query_lower)).collect();
    assert_eq!(matches.len(), 1);
    assert_eq!(matches[0].name.as_deref(), Some("홍길동"));
}

#[test]
fn sources_add_with_beat_field() {
    let s = new_source("홍길동 산업부 010-1234 반도체 담당 --beat 경제").unwrap();
    assert_eq!(s.beat.as_deref(), Some("경제"));
    assert_eq!(s.name.as_deref(), Some("홍길동"));
    assert_eq!(s.note.as_deref(), Some("반도체 담당"));
}

#[test]
fn sources_add_without_beat_defaults_empty() {
    let s = new_source("홍길동 산업부 010-1234").unwrap();
    assert_eq!(s.beat.as_deref().unwrap_or(""), "");
}

#[test]
fn sources_search_matches_beat() {
    let sources = vec![
        src("홍길동", "산업부", "010-1234", "", Some("경제")),
        src("김영희", "기획부", "010-5678", "", Some("정치")),
    ];
    let query_lower = "경제".to_lowercase();
    let matches: Vec<_> = sources.iter().filter(|s| source_matches(s, &query_lower)).collect();
    assert_eq!(matches.len(), 1);
    assert_eq!(matches[0].name.as_deref(), Some("홍길동"));
}

#[test]
fn sources_beat_filter() {
    let sources = vec![
        src("홍길동", "산업부", "010-1234", "", Some("경제")),
        src("김영희", "기획부", "010-5678", "", Some("정치")),
        src("박기자", "IT부", "010-9999", "", Some("경제")),
    ];
    let matches: Vec<_> = sources.iter().filter(|s| beat_matches(s, "경제")).collect();
    assert_eq!(matches.len(), 2);
    assert_eq!(matches[0].name.as_deref(), Some("홍길동"));
    assert_eq!(matches[1].name.as_deref(), Some("박기자"));
}

#[test]
fn sources_edit_beat_field() {
    let mut sources = vec![src("홍길동", "산업부", "010-1234", "", Some("경제"))];
    edit_source(&mut sources, "1 beat IT").unwrap();
    assert_eq!(sources[0].beat.as_deref(), Some("IT"));
}

#[test]
fn extract_beat_option_removes_flag() {
    let (beat, rest) = extract_beat_option("홍길동 산업부  --beat 경제 010-1234");
    assert_eq!(beat, "경제");
    assert_eq!(rest, "홍길동 산업부 010-1234");
    let (beat, rest) = extract_beat_option("a b  c --beat");
    assert_eq!(beat, "");
    assert_eq!(rest, "a b  c --beat");
}

#[test]
fn compute_beat_distribution_basic() {
    let sources = vec![
        src("김기자", "A", "010", "", Some("경제")),
        src("이기자", "B", "010", "", Some("경제")),
        src("박기자", "C", "010", "", Some("정치")),
        src("최기자", "D", "010", "", Some("")),
    ];
    let dist = compute_beat_distribution(&sources);
    assert_eq!(lookup(&dist, "경제"), Some(2));
    assert_eq!(lookup(&dist, "정치"), Some(1));
    assert_eq!(lookup(&dist, "(미지정)"), Some(1));
    assert_eq!(dist.len(), 3);
}

#[test]
fn compute_beat_distribution_empty() {
    let sources: Vec<Source> = vec![];
    let dist = compute_beat_distribution(&sources);
    assert!(dist.is_empty());
}

#[test]
fn find_gap_beats_identifies_weak_areas() {
    let dist = vec![
        ("경제".to_string(), 5),
        ("정치".to_string(), 2),
        ("사회".to_string(), 1),
        ("국제".to_string(), 0),
    ];
    let gaps = find_gap_beats(&dist, 2);
    assert_eq!(gaps.len(), 3);
    assert_eq!(gaps[0].0, "국제");
    assert_eq!(gaps[0].1, 0);
    assert_eq!(gaps[1].0, "사회");
    assert_eq!(gaps[1].1, 1);
    assert_eq!(gaps[2].0, "정치");
    assert_eq!(gaps[2].1, 2);
}

#[test]
fn find_gap_beats_none_when_all_strong() {
    let dist = vec![("경제".to_string(), 5), ("정치".to_string(), 3)];
    let gaps = find_gap_beats(&dist, 2);
    assert!(gaps.is_empty());
}

#[test]
fn network_map_order_and_labels() {
    let dist = vec![("b".to_string(), 1), ("a".to_string(), 3), ("c".to_string(), 3)];
    let sorted = sort_beats_by_count(&dist);
    let names: Vec<&str> = sorted.iter().map(|(k, _)| k.as_str()).collect();
    assert_eq!(names, vec!["a", "c", "b"]);
    assert_eq!(beat_strength(5), "강");
    assert_eq!(beat_strength(3), "보통");
    assert_eq!(beat_strength(2), "약");
    assert_eq!(gap_level(0), "⚠ 없음");
    assert_eq!(gap_level(1), "⚠ 매우 부족");
    assert_eq!(gap_level(2), "△ 부족");
    assert_eq!(beat_bar_len(3, 3), 20);
    assert_eq!(beat_bar_len(1, 30), 1);
    assert_eq!(beat_bar_len(0, 0), 1);
}
