use newsroom_agent::session::{
    continue_session_path, parse_bookmark_name, search_query, session_path, Bookmarks,
    AUTO_SAVE_SESSION_PATH, DEFAULT_SESSION_PATH,
};

fn mark(bookmarks: &mut Bookmarks, input: &str, snapshot: &str) -> bool {
    match parse_bookmark_name(input, "/mark") {
        Some(name) => {
            bookmarks.insert(&name, snapshot);
            true
        }
        None => false,
    }
}

#[test]
fn test_auto_save_session_path_constant() {
    assert_eq!(AUTO_SAVE_SESSION_PATH, ".yoyo/last-session.json");
}

#[test]
fn test_continue_session_path_fallback() {
    let path = continue_session_path(false);
    assert!(path == AUTO_SAVE_SESSION_PATH || path == DEFAULT_SESSION_PATH);
    assert_eq!(path, DEFAULT_SESSION_PATH);
    assert_eq!(continue_session_path(true), AUTO_SAVE_SESSION_PATH);
}

#[test]
fn test_handle_mark_saves_bookmark() {
    let mut bookmarks = Bookmarks::new();
    assert!(mark(&mut bookmarks, "/mark test_bm", "[\"hello\",\"world\"]"));
    assert!(bookmarks.contains("test_bm"));
}

#[test]
fn test_handle_mark_overwrites_existing() {
    let mut bookmarks = Bookmarks::new();
    mark(&mut bookmarks, "/mark bm", "[\"hello\"]");
    let snap1 = bookmarks.get("bm").unwrap();
    mark(&mut bookmarks, "/mark bm", "[\"hello\",\"world\",\"foo\"]");
    let snap2 = bookmarks.get("bm").unwrap();
    assert_ne!(snap1, snap2);
    assert_eq!(bookmarks.len(), 1);
}

#[test]
fn test_handle_mark_no_name_does_not_crash() {
    let mut bookmarks = Bookmarks::new();
    assert!(!mark(&mut bookmarks, "/mark", "[]"));
    assert_eq!(bookmarks.len(), 0);
}

#[test]
fn test_handle_jump_restores_bookmark() {
    let mut bookmarks = Bookmarks::new();
    mark(&mut bookmarks, "/mark snap", "[\"hello\",\"world\"]");
    let name = parse_bookmark_name("/jump snap", "/jump").unwrap();
    assert_eq!(bookmarks.get(&name), Some("[\"hello\",\"world\"]".to_string()));
}

#[test]
fn test_handle_jump_nonexistent_does_not_crash() {
    let bookmarks = Bookmarks::new();
    let name = parse_bookmark_name("/jump nonexistent", "/jump").unwrap();
    assert_eq!(bookmarks.get(&name), None);
}

#[test]
fn test_handle_jump_no_name_does_not_crash() {
    assert_eq!(parse_bookmark_name("/jump", "/jump"), None);
}

#[test]
fn test_handle_marks_empty() {
    let bookmarks = Bookmarks::new();
    assert!(bookmarks.sorted_names().is_empty());
}

#[test]
fn test_handle_marks_lists_all() {
    let mut bookmarks = Bookmarks::new();
    mark(&mut bookmarks, "/mark beta", "[\"hello\"]");
    mark(&mut bookmarks, "/mark alpha", "[\"hello\"]");
    assert_eq!(bookmarks.len(), 2);
    assert_eq!(bookmarks.sorted_names(), vec!["alpha".to_string(), "beta".to_string()]);
}

#[test]
fn bookmark_insert_reports_replacement() {
    let mut bookmarks = Bookmarks::new();
    assert!(!bookmarks.insert("a", "1"));
    assert!(bookmarks.insert("a", "2"));
    assert!(!bookmarks.insert("b", "3"));
    // Reading a bookmark gives back what was last saved; others stay.
    assert_eq!(bookmarks.get("a"), Some("2".to_string()));
    assert_eq!(bookmarks.get("b"), Some("3".to_string()));
    assert_eq!(bookmarks.len(), 2);
}

#[test]
fn session_paths() {
    assert_eq!(session_path("/save", "/save"), DEFAULT_SESSION_PATH);
    assert_eq!(session_path("/save  my.json ", "/save"), "my.json");
    assert_eq!(session_path("/load other.json", "/load"), "other.json");
}

#[test]
fn search_queries() {
    assert_eq!(search_query("/search"), None);
    assert_eq!(search_query("/search    "), None);
    assert_eq!(search_query("/search fox"), Some("fox".to_string()));
    assert_eq!(search_query("/search  lazy dog "), Some("lazy dog".to_string()));
}
