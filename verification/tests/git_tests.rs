use newsroom_agent::git::{
    classify_diff_line, classify_status_line, combine_stats, commit_reply, count_nonempty_lines,
    format_diff_stat, parse_diff_stat, parse_pr_args, pr_create_args, CommitReply, DiffLineKind,
    DiffStatEntry, DiffStatSummary, PrSubcommand, StatusKind,
};
use newsroom_agent::style::{DIM, GREEN, RED, RESET};

#[test]
fn parse_diff_stat_with_summary() {
    let out = " src/main.rs | 42 +++++++++-------\n src/lib.rs  |  3 ++-\n 2 files changed, 25 insertions(+), 10 deletions(-)\n";
    let s = parse_diff_stat(out);
    assert_eq!(s.entries.len(), 2);
    assert_eq!(s.entries[0].file, "src/main.rs");
    assert_eq!(s.entries[0].insertions, 9);
    assert_eq!(s.entries[0].deletions, 7);
    assert_eq!(s.entries[1].file, "src/lib.rs");
    assert_eq!(s.total_insertions, 25);
    assert_eq!(s.total_deletions, 10);
}

#[test]
fn parse_diff_stat_without_summary_sums_entries() {
    let s = parse_diff_stat("a | 2 ++\nb | 1 -\n | 5 +++\nno pipe here\n");
    assert_eq!(s.entries.len(), 2);
    assert_eq!(s.total_insertions, 2);
    assert_eq!(s.total_deletions, 1);
}

#[test]
fn parse_diff_stat_only_insertions_summary() {
    let s = parse_diff_stat(" x | 1 +\n 1 file changed, 1 insertion(+)\n");
    assert_eq!(s.total_insertions, 1);
    assert_eq!(s.total_deletions, 0);
}

#[test]
fn format_diff_stat_empty_and_lines() {
    let empty = DiffStatSummary { entries: vec![], total_insertions: 0, total_deletions: 0 };
    assert_eq!(format_diff_stat(&empty), "");
    let s = DiffStatSummary {
        entries: vec![
            DiffStatEntry { file: "a.rs".to_string(), insertions: 3, deletions: 0 },
            DiffStatEntry { file: "long.rs".to_string(), insertions: 1, deletions: 2 },
        ],
        total_insertions: 4,
        total_deletions: 2,
    };
    let text = format_diff_stat(&s);
    let expected = format!(
        "{DIM}  File summary:{RESET}\n    a.rs     {DIM}   3{RESET} {GREEN}+3{RESET}\n    long.rs  {DIM}   3{RESET} {GREEN}+1{RESET} {RED}-2{RESET}\n\n  {DIM}2 files changed{RESET}, {GREEN}+4{RESET}, {RED}-2{RESET}\n"
    );
    assert_eq!(text, expected);
}

#[test]
fn diff_and_status_lines_are_classified() {
    assert_eq!(classify_diff_line("+added"), DiffLineKind::Added);
    assert_eq!(classify_diff_line("+++ b/file"), DiffLineKind::Context);
    assert_eq!(classify_diff_line("-gone"), DiffLineKind::Removed);
    assert_eq!(classify_diff_line("@@ -1 +1 @@"), DiffLineKind::Hunk);
    assert_eq!(classify_diff_line("diff --git a b"), DiffLineKind::Header);
    assert_eq!(classify_diff_line("index 123"), DiffLineKind::Header);
    assert_eq!(classify_status_line("M src/a.rs"), StatusKind::Changed);
    assert_eq!(classify_status_line("D gone.rs"), StatusKind::Deleted);
    assert_eq!(classify_status_line("?? new.rs"), StatusKind::Untracked);
    assert_eq!(classify_status_line("M"), StatusKind::Other);
    assert_eq!(classify_status_line("UU x"), StatusKind::Other);
}

#[test]
fn combine_stats_picks_the_nonempty() {
    assert_eq!(combine_stats("a", "b"), "a\nb");
    assert_eq!(combine_stats("a", "  "), "a");
    assert_eq!(combine_stats(" ", "b"), "b");
}

#[test]
fn commit_reply_choices() {
    assert_eq!(commit_reply(" Y\n"), CommitReply::Accept);
    assert_eq!(commit_reply(""), CommitReply::Accept);
    assert_eq!(commit_reply("yes"), CommitReply::Accept);
    assert_eq!(commit_reply("Edit"), CommitReply::Edit);
    assert_eq!(commit_reply("n"), CommitReply::Cancel);
}

#[test]
fn parse_pr_args_cases() {
    assert!(matches!(parse_pr_args(""), PrSubcommand::List));
    assert!(matches!(parse_pr_args("  42 "), PrSubcommand::View(42)));
    assert!(matches!(parse_pr_args("42 DIFF"), PrSubcommand::Diff(42)));
    assert!(matches!(parse_pr_args("7 checkout"), PrSubcommand::Checkout(7)));
    match parse_pr_args("7 comment  looks good ") {
        PrSubcommand::Comment(n, t) => {
            assert_eq!(n, 7);
            assert_eq!(t, "looks good");
        }
        other => panic!("unexpected {other:?}"),
    }
    assert!(matches!(parse_pr_args("7 comment"), PrSubcommand::Help));
    assert!(matches!(parse_pr_args("CREATE --draft"), PrSubcommand::Create { draft: true }));
    assert!(matches!(parse_pr_args("create"), PrSubcommand::Create { draft: false }));
    assert!(matches!(parse_pr_args("abc"), PrSubcommand::Help));
    assert!(matches!(parse_pr_args("7 merge"), PrSubcommand::Help));
}

#[test]
fn pr_create_args_and_commit_count() {
    assert_eq!(
        pr_create_args("T", "B", "main", true),
        vec!["pr", "create", "--title", "T", "--body", "B", "--base", "main", "--draft"]
    );
    assert_eq!(pr_create_args("T", "B", "main", false).len(), 8);
    assert_eq!(count_nonempty_lines("a\n\nb\n"), 2);
}
