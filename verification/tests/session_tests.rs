use newsroom_agent::session::{parse_bookmark_name, parse_spawn_task};

#[test]
fn test_parse_bookmark_name_with_name() {
    assert_eq!(
        parse_bookmark_name("/mark checkpoint1", "/mark"),
        Some("checkpoint1".to_string())
    );
}

#[test]
fn test_parse_bookmark_name_empty() {
    assert_eq!(parse_bookmark_name("/mark", "/mark"), None);
    assert_eq!(parse_bookmark_name("/mark   ", "/mark"), None);
}

#[test]
fn test_parse_bookmark_name_with_spaces() {
    assert_eq!(
        parse_bookmark_name("/mark  my bookmark ", "/mark"),
        Some("my bookmark".to_string())
    );
}

#[test]
fn test_parse_bookmark_name_jump_prefix() {
    assert_eq!(
        parse_bookmark_name("/jump checkpoint1", "/jump"),
        Some("checkpoint1".to_string())
    );
}

#[test]
fn test_parse_spawn_task_with_task() {
    assert_eq!(
        parse_spawn_task("/spawn read src/main.rs"),
        Some("read src/main.rs".to_string())
    );
}

#[test]
fn test_parse_spawn_task_empty() {
    assert_eq!(parse_spawn_task("/spawn"), None);
    assert_eq!(parse_spawn_task("/spawn   "), None);
}

#[test]
fn test_parse_spawn_task_preserves_content() {
    let task = parse_spawn_task("/spawn summarize the architecture of this project");
    assert_eq!(
        task,
        Some("summarize the architecture of this project".to_string())
    );
}

#[test]
fn bookmark_name_with_other_prefix_is_none() {
    assert_eq!(parse_bookmark_name("/jump here", "/mark"), None);
}
