use newsroom_agent::devtools::{
    build_commands_for_project, build_fix_prompt, detect_project_type, docs_args, docs_label, exit_line,
    format_tree_from_paths, health_checks_for_project, lint_command_for_project, project_type_label,
    run_command_text, run_summary, test_command_for_project, tree_depth, ProjectType,
};
use newsroom_agent::find::{find_matches, fuzzy_score, highlight_match, try_highlight_match};
use newsroom_agent::index::{
    extract_first_meaningful_line, format_project_index, index_entry, is_binary_extension, truncate_with_ellipsis,
    IndexEntry,
};
use newsroom_agent::init::{
    detect_project_name, extract_name_from_cargo_toml, extract_name_from_package_json,
    extract_project_name_from_readme, generate_init_content,
};

fn names(v: &[&str]) -> Vec<String> {
    v.iter().map(|s| s.to_string()).collect()
}

// ── project type ────────────────────────────────────────────────────

#[test]
fn project_type_detection_order() {
    assert_eq!(detect_project_type(&names(&["package.json", "Cargo.toml"])), ProjectType::Rust);
    assert_eq!(detect_project_type(&names(&["package.json"])), ProjectType::Node);
    assert_eq!(detect_project_type(&names(&["setup.cfg"])), ProjectType::Python);
    assert_eq!(detect_project_type(&names(&["go.mod", "Makefile"])), ProjectType::Go);
    assert_eq!(detect_project_type(&names(&["makefile"])), ProjectType::Make);
    assert_eq!(detect_project_type(&names(&[])), ProjectType::Unknown);
    assert_eq!(project_type_label(ProjectType::Node), "Node.js (npm)");
}

#[test]
fn project_commands() {
    let rust = build_commands_for_project(&ProjectType::Rust);
    assert_eq!(rust.len(), 5);
    assert_eq!(rust[0], ("Build", "cargo build"));
    assert!(build_commands_for_project(&ProjectType::Unknown).is_empty());
    let checks = health_checks_for_project(&ProjectType::Go);
    assert_eq!(checks[0].0, "build");
    assert_eq!(checks[0].1, vec!["go", "build", "./..."]);
    assert_eq!(test_command_for_project(&ProjectType::Python), Some(("python -m pytest", vec!["python", "-m", "pytest"])));
    assert_eq!(test_command_for_project(&ProjectType::Unknown), None);
    assert_eq!(lint_command_for_project(&ProjectType::Make), None);
    assert_eq!(
        lint_command_for_project(&ProjectType::Rust),
        Some(("cargo clippy --all-targets -- -D warnings", vec!["cargo", "clippy", "--all-targets", "--", "-D", "warnings"]))
    );
}

#[test]
fn fix_prompt_and_summaries() {
    assert_eq!(build_fix_prompt(&vec![]), "");
    let p = build_fix_prompt(&vec![("build".to_string(), "error[E0308]".to_string())]);
    assert!(p.starts_with("Fix the following build/lint errors"));
    assert!(p.contains("## build errors:\n```\nerror[E0308]\n```\n\n"));
    assert_eq!(run_summary("Tests", "cargo test", "1.2s", true, 0, "ok", ""), "Tests passed (1.2s): cargo test");
    let failed = run_summary("Lint", "npx eslint .", "3s", false, 1, "out", "");
    assert_eq!(failed, "Lint FAILED (exit 1, 3s): npx eslint .\n\nLast output:\nout\n");
    let many: String = (1..=25).map(|i| format!("l{i}\n")).collect();
    let tail = run_summary("Tests", "t", "1s", false, 2, "", &many);
    assert!(tail.contains("Last output:\nl6\n"));
    assert!(!tail.contains("l5\n"));
}

#[test]
fn run_and_docs_args() {
    assert_eq!(run_command_text("/run ls -la"), "ls -la");
    assert_eq!(run_command_text("!echo hi"), "echo hi");
    assert_eq!(run_command_text("/run"), "");
    assert!(exit_line(0, "0.1s").contains("✓ exit 0 (0.1s)"));
    assert!(exit_line(-1, "0.1s").contains("✗ exit -1 (0.1s)"));
    assert_eq!(tree_depth(""), Some(3));
    assert_eq!(tree_depth("5"), Some(5));
    assert_eq!(tree_depth("x"), None);
    assert_eq!(docs_args("/docs"), None);
    assert_eq!(docs_args("/docs serde"), Some(("serde".to_string(), String::new())));
    assert_eq!(docs_args("/docs serde Deserialize"), Some(("serde".to_string(), "Deserialize".to_string())));
    assert_eq!(docs_label("serde", ""), "serde");
    assert_eq!(docs_label("serde", "Deserialize"), "serde::Deserialize");
}

#[test]
fn tree_from_paths() {
    let paths = names(&["Cargo.toml", "src/lib.rs", "src/a/b/deep.rs", "src/main.rs"]);
    let t = format_tree_from_paths(&paths, 2);
    assert_eq!(t, "Cargo.toml\nsrc/\n  lib.rs\n  a/\n  main.rs");
    assert_eq!(format_tree_from_paths(&paths, 0), "Cargo.toml");
    assert_eq!(format_tree_from_paths(&vec![], 3), "");
}

// ── /find ───────────────────────────────────────────────────────────

#[test]
fn fuzzy_scores() {
    assert_eq!(fuzzy_score("src/main.rs", "main"), Some(100 + 50 + 30 + 20 - 2));
    assert_eq!(fuzzy_score("src/main.rs", "MAIN"), Some(198));
    assert_eq!(fuzzy_score("src/domain.rs", "main"), Some(100 + 50 - 2));
    assert_eq!(fuzzy_score("main/lib.rs", "main"), Some(100 - 2));
    assert_eq!(fuzzy_score("lib.rs", "main"), None);
}

#[test]
fn find_matches_sorted() {
    let files = names(&["src/lib.rs", "src/main.rs", "main.rs", "docs/domain.md"]);
    let m = find_matches(&files, "main");
    let paths: Vec<&str> = m.iter().map(|x| x.path.as_str()).collect();
    assert_eq!(paths, vec!["main.rs", "src/main.rs", "docs/domain.md"]);
    assert_eq!(m[0].score, 200);
    assert!(find_matches(&files, "zzz").is_empty());
}

#[test]
fn highlight() {
    let h = highlight_match("src/Main.rs", "main");
    assert!(h.starts_with("src/"));
    assert!(h.contains("Main"));
    assert!(h.ends_with(".rs"));
    assert_ne!(h, "src/Main.rs");
    assert_eq!(highlight_match("lib.rs", "main"), "lib.rs");
    assert_eq!(try_highlight_match("src/Main.rs", "main"), Some(h));
}

// ── /index ──────────────────────────────────────────────────────────

#[test]
fn index_helpers() {
    assert!(is_binary_extension("logo.PNG"));
    assert!(is_binary_extension("Cargo.lock"));
    assert!(!is_binary_extension("main.rs"));
    assert_eq!(truncate_with_ellipsis("hello", 10), "hello");
    assert_eq!(truncate_with_ellipsis("hello world", 5), "hello…");
    assert_eq!(extract_first_meaningful_line("\n\n   //! Crate docs  \nfn x"), "//! Crate docs");
    assert_eq!(extract_first_meaningful_line("   \n"), "");
    let e = index_entry("src/lib.rs", "\n//! Library\nfn a() {}\n");
    assert_eq!(e.lines, 3);
    assert_eq!(e.summary, "//! Library");
}

#[test]
fn index_table() {
    assert_eq!(format_project_index(&vec![]), "(no indexable files found)");
    let entries = vec![
        IndexEntry { path: "a.rs".into(), lines: 10, summary: "A".into() },
        IndexEntry { path: "src/bb.rs".into(), lines: 5, summary: "B".into() },
    ];
    let t = format_project_index(&entries);
    assert!(t.starts_with("  Path       Lines  Summary\n"));
    assert!(t.contains("  a.rs          10  A\n"));
    assert!(t.contains("  src/bb.rs      5  B\n"));
    assert!(t.ends_with("\n  2 files, 15 total lines\n"));
}

// ── /init ───────────────────────────────────────────────────────────

#[test]
fn init_name_detection() {
    assert_eq!(extract_name_from_cargo_toml("[package]\nname = \"my-crate\"\nversion = \"0.1\""), Some("my-crate".to_string()));
    assert_eq!(extract_name_from_cargo_toml("[package]\nversion = \"0.1\""), None);
    assert_eq!(extract_name_from_package_json("{\n  \"name\": \"web-app\",\n  \"version\": \"1.0.0\"\n}"), Some("web-app".to_string()));
    assert_eq!(extract_project_name_from_readme(&names(&["intro\n#  My Tool \n"])), Some("My Tool".to_string()));
    assert_eq!(extract_project_name_from_readme(&names(&["no title", "# Second"])), Some("Second".to_string()));
    assert_eq!(detect_project_name(None, None, &vec![], Some("dir")), "dir");
    assert_eq!(detect_project_name(None, None, &vec![], None), "my-project");
    assert_eq!(detect_project_name(Some("name = 'c'"), Some("\"name\": \"p\""), &vec![], Some("d")), "c");
    assert_eq!(detect_project_name(Some("x"), Some("\"name\": \"p\","), &vec![], Some("d")), "p");
}

#[test]
fn init_content() {
    let c = generate_init_content(ProjectType::Rust, "demo", &names(&["Cargo.toml"]), &names(&["src"]));
    assert!(c.starts_with("# Project Context\n\n"));
    assert!(c.contains("**demo** — Rust (Cargo) project\n\n"));
    assert!(c.contains("```bash\ncargo build"));
    assert!(c.contains("# Build\n"));
    assert!(c.contains("Key directories:\n- `src/`\n\n"));
    assert!(c.contains("Key files:\n- `Cargo.toml`\n\n"));
    let u = generate_init_content(ProjectType::Unknown, "x", &vec![], &vec![]);
    assert!(u.contains("**x**\n\n"));
    assert!(u.contains("<!-- Add build, test, and run commands for this project. -->"));
    assert!(u.contains("<!-- List key files and directories the agent should know about. -->"));
}
