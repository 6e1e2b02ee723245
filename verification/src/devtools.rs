//! Project tooling: telling what kind of project a directory holds, and the
//! build, test, lint and health-check commands for each kind.
use vstd::prelude::*;
use crate::style::{DIM, GREEN, RED, RESET};
use crate::text::{
    chars_of, dec, dec_signed, eq_str, lines, lines_exec, parse_uint, parse_uint_exec, push_all,
    push_dec, push_dec_signed, push_repeat, push_str, repeat, slice_of, split_char, split_on,
    split_once_ws, split_once_ws_exec, starts_with, starts_with_exec, string_of, trim, trim_vec,
    join, eq_exec,
};

verus! {

/// Detected project type based on marker files in the working directory.
#[derive(Debug, Clone, Copy, PartialEq, Eq, Structural)]
pub enum ProjectType {
    Rust,
    Node,
    Python,
    Go,
    Make,
    Unknown,
}

/// The name a project type is shown by.
pub open spec fn project_type_name(t: ProjectType) -> Seq<char> {
    match t {
        ProjectType::Rust => "Rust (Cargo)"@,
        ProjectType::Node => "Node.js (npm)"@,
        ProjectType::Python => "Python"@,
        ProjectType::Go => "Go"@,
        ProjectType::Make => "Makefile"@,
        ProjectType::Unknown => "Unknown"@,
    }
}

/// The name a project type is shown by.
pub fn project_type_label(t: ProjectType) -> (r: &'static str)
    ensures
        r@ == project_type_name(t),
{
    match t {
        ProjectType::Rust => "Rust (Cargo)",
        ProjectType::Node => "Node.js (npm)",
        ProjectType::Python => "Python",
        ProjectType::Go => "Go",
        ProjectType::Make => "Makefile",
        ProjectType::Unknown => "Unknown",
    }
}

/// The files whose presence tells the project type, in the order they are
/// looked for.
pub const PROJECT_MARKERS: [&'static str; 8] = [
    "Cargo.toml",
    "package.json",
    "pyproject.toml",
    "setup.py",
    "setup.cfg",
    "go.mod",
    "Makefile",
    "makefile",
];

/// `present` names the marker file `m`.
pub open spec fn has_marker(present: Seq<Seq<char>>, m: Seq<char>) -> bool {
    present.contains(m)
}

/// The project type the present marker files tell: the first kind, in the
/// order Rust, Node, Python, Go, Make, whose marker is present.
pub open spec fn project_type_of(present: Seq<Seq<char>>) -> ProjectType {
    if has_marker(present, "Cargo.toml"@) {
        ProjectType::Rust
    } else if has_marker(present, "package.json"@) {
        ProjectType::Node
    } else if has_marker(present, "pyproject.toml"@) || has_marker(present, "setup.py"@)
        || has_marker(present, "setup.cfg"@) {
        ProjectType::Python
    } else if has_marker(present, "go.mod"@) {
        ProjectType::Go
    } else if has_marker(present, "Makefile"@) || has_marker(present, "makefile"@) {
        ProjectType::Make
    } else {
        ProjectType::Unknown
    }
}

fn present_has(present: &Vec<String>, m: &str) -> (r: bool)
    ensures
        r == has_marker(present@.map_values(|s: String| s@), m@),
{
    let ghost pv = present@.map_values(|s: String| s@);
    let mut i: usize = 0;
    while i < present.len()
        invariant
            i <= present@.len(),
            pv == present@.map_values(|s: String| s@),
            forall|j: int| 0 <= j < i ==> pv[j] != m@,
        decreases present@.len() - i,
    {
        if eq_str(chars_of(present[i].as_str()).as_slice(), m) {
            assert(pv[i as int] == m@);
            return true;
        }
        i += 1;
    }
    assert(!pv.contains(m@));
    false
}

/// Detect the project type from the marker files present in a directory
/// (the names among `PROJECT_MARKERS` that exist there).
pub fn detect_project_type(present: &Vec<String>) -> (r: ProjectType)
    ensures
        r == project_type_of(present@.map_values(|s: String| s@)),
{
    if present_has(present, "Cargo.toml") {
        ProjectType::Rust
    } else if present_has(present, "package.json") {
        ProjectType::Node
    } else if present_has(present, "pyproject.toml") || present_has(present, "setup.py") || present_has(
        present,
        "setup.cfg",
    ) {
        ProjectType::Python
    } else if present_has(present, "go.mod") {
        ProjectType::Go
    } else if present_has(present, "Makefile") || present_has(present, "makefile") {
        ProjectType::Make
    } else {
        ProjectType::Unknown
    }
}

pub open spec fn pairs_of(v: Seq<(&'static str, &'static str)>) -> Seq<(Seq<char>, Seq<char>)> {
    v.map_values(|p: (&'static str, &'static str)| (p.0@, p.1@))
}

/// The build, test and lint commands `/init` lists for a project type:
/// each as (what it does, the command).
pub open spec fn project_commands(t: ProjectType) -> Seq<(Seq<char>, Seq<char>)> {
    match t {
        ProjectType::Rust => seq![
            ("Build"@, "cargo build"@),
            ("Test"@, "cargo test"@),
            ("Lint"@, "cargo clippy --all-targets -- -D warnings"@),
            ("Format check"@, "cargo fmt -- --check"@),
            ("Format"@, "cargo fmt"@),
        ],
        ProjectType::Node => seq![("Install"@, "npm install"@), ("Test"@, "npm test"@), ("Lint"@, "npx eslint ."@)],
        ProjectType::Python => seq![
            ("Test"@, "python -m pytest"@),
            ("Lint"@, "ruff check ."@),
            ("Type check"@, "python -m mypy ."@),
        ],
        ProjectType::Go => seq![("Build"@, "go build ./..."@), ("Test"@, "go test ./..."@), ("Vet"@, "go vet ./..."@)],
        ProjectType::Make => seq![("Build"@, "make"@), ("Test"@, "make test"@)],
        ProjectType::Unknown => seq![],
    }
}

/// Get build/test/lint commands for a project type.
pub fn build_commands_for_project(project_type: &ProjectType) -> (r: Vec<(&'static str, &'static str)>)
    ensures
        pairs_of(r@) == project_commands(*project_type),
{
    let mut v: Vec<(&'static str, &'static str)> = Vec::new();
    match project_type {
        ProjectType::Rust => {
            v.push(("Build", "cargo build"));
            v.push(("Test", "cargo test"));
            v.push(("Lint", "cargo clippy --all-targets -- -D warnings"));
            v.push(("Format check", "cargo fmt -- --check"));
            v.push(("Format", "cargo fmt"));
        },
        ProjectType::Node => {
            v.push(("Install", "npm install"));
            v.push(("Test", "npm test"));
            v.push(("Lint", "npx eslint ."));
        },
        ProjectType::Python => {
            v.push(("Test", "python -m pytest"));
            v.push(("Lint", "ruff check ."));
            v.push(("Type check", "python -m mypy ."));
        },
        ProjectType::Go => {
            v.push(("Build", "go build ./..."));
            v.push(("Test", "go test ./..."));
            v.push(("Vet", "go vet ./..."));
        },
        ProjectType::Make => {
            v.push(("Build", "make"));
            v.push(("Test", "make test"));
        },
        ProjectType::Unknown => {},
    }
    assert(pairs_of(v@) =~= project_commands(*project_type));
    v
}

pub open spec fn argv_of(v: Seq<&'static str>) -> Seq<Seq<char>> {
    v.map_values(|s: &'static str| s@)
}

pub open spec fn checks_of(v: Seq<(&'static str, Vec<&'static str>)>) -> Seq<(Seq<char>, Seq<Seq<char>>)> {
    v.map_values(|c: (&'static str, Vec<&'static str>)| (c.0@, argv_of(c.1@)))
}

/// The health checks of a project type: each a name and the command's
/// words.
pub open spec fn project_checks(t: ProjectType) -> Seq<(Seq<char>, Seq<Seq<char>>)> {
    match t {
        ProjectType::Rust => seq![
            ("build"@, seq!["cargo"@, "build"@]),
            ("test"@, seq!["cargo"@, "test"@]),
            ("clippy"@, seq!["cargo"@, "clippy"@, "--all-targets"@, "--"@, "-D"@, "warnings"@]),
            ("fmt"@, seq!["cargo"@, "fmt"@, "--"@, "--check"@]),
        ],
        ProjectType::Node => seq![("test"@, seq!["npm"@, "test"@]), ("lint"@, seq!["npx"@, "eslint"@, "."@])],
        ProjectType::Python => seq![
            ("test"@, seq!["python"@, "-m"@, "pytest"@]),
            ("lint"@, seq!["python"@, "-m"@, "flake8"@, "."@]),
            ("typecheck"@, seq!["python"@, "-m"@, "mypy"@, "."@]),
        ],
        ProjectType::Go => seq![
            ("build"@, seq!["go"@, "build"@, "./..."@]),
            ("test"@, seq!["go"@, "test"@, "./..."@]),
            ("vet"@, seq!["go"@, "vet"@, "./..."@]),
        ],
        ProjectType::Make => seq![("test"@, seq!["make"@, "test"@])],
        ProjectType::Unknown => seq![],
    }
}

fn words_vec2(a: &'static str, b: &'static str) -> (r: Vec<&'static str>)
    ensures
        argv_of(r@) == seq![a@, b@],
{
    let mut v: Vec<&'static str> = Vec::new();
    v.push(a);
    v.push(b);
    assert(argv_of(v@) =~= seq![a@, b@]);
    v
}

fn words_vec3(a: &'static str, b: &'static str, c: &'static str) -> (r: Vec<&'static str>)
    ensures
        argv_of(r@) == seq![a@, b@, c@],
{
    let mut v: Vec<&'static str> = Vec::new();
    v.push(a);
    v.push(b);
    v.push(c);
    assert(argv_of(v@) =~= seq![a@, b@, c@]);
    v
}

fn words_vec4(a: &'static str, b: &'static str, c: &'static str, d: &'static str) -> (r: Vec<&'static str>)
    ensures
        argv_of(r@) == seq![a@, b@, c@, d@],
{
    let mut v = words_vec3(a, b, c);
    let ghost before = v@;
    v.push(d);
    assert(argv_of(v@) =~= argv_of(before).push(d@));
    v
}

fn clippy_words() -> (r: Vec<&'static str>)
    ensures
        argv_of(r@) == seq!["cargo"@, "clippy"@, "--all-targets"@, "--"@, "-D"@, "warnings"@],
{
    let mut v = words_vec3("cargo", "clippy", "--all-targets");
    let ghost b0 = v@;
    v.push("--");
    assert(argv_of(v@) =~= argv_of(b0).push("--"@));
    let ghost b1 = v@;
    v.push("-D");
    assert(argv_of(v@) =~= argv_of(b1).push("-D"@));
    let ghost b2 = v@;
    v.push("warnings");
    assert(argv_of(v@) =~= argv_of(b2).push("warnings"@));
    assert(argv_of(v@) =~= seq!["cargo"@, "clippy"@, "--all-targets"@, "--"@, "-D"@, "warnings"@]);
    v
}

/// Return health check commands for a given project type.
pub fn health_checks_for_project(project_type: &ProjectType) -> (r: Vec<(&'static str, Vec<&'static str>)>)
    ensures
        checks_of(r@) == project_checks(*project_type),
{
    let mut v: Vec<(&'static str, Vec<&'static str>)> = Vec::new();
    match project_type {
        ProjectType::Rust => {
            v.push(("build", words_vec2("cargo", "build")));
            v.push(("test", words_vec2("cargo", "test")));
            v.push(("clippy", clippy_words()));
            v.push(("fmt", words_vec4("cargo", "fmt", "--", "--check")));
        },
        ProjectType::Node => {
            v.push(("test", words_vec2("npm", "test")));
            v.push(("lint", words_vec3("npx", "eslint", ".")));
        },
        ProjectType::Python => {
            v.push(("test", words_vec3("python", "-m", "pytest")));
            v.push(("lint", words_vec4("python", "-m", "flake8", ".")));
            v.push(("typecheck", words_vec4("python", "-m", "mypy", ".")));
        },
        ProjectType::Go => {
            v.push(("build", words_vec3("go", "build", "./...")));
            v.push(("test", words_vec3("go", "test", "./...")));
            v.push(("vet", words_vec3("go", "vet", "./...")));
        },
        ProjectType::Make => {
            v.push(("test", words_vec2("make", "test")));
        },
        ProjectType::Unknown => {},
    }
    assert(checks_of(v@) =~= project_checks(*project_type));
    v
}

/// The test command of a project type: how it is shown and its words.
pub open spec fn project_test_command(t: ProjectType) -> Option<(Seq<char>, Seq<Seq<char>>)> {
    match t {
        ProjectType::Rust => Some(("cargo test"@, seq!["cargo"@, "test"@])),
        ProjectType::Node => Some(("npm test"@, seq!["npm"@, "test"@])),
        ProjectType::Python => Some(("python -m pytest"@, seq!["python"@, "-m"@, "pytest"@])),
        ProjectType::Go => Some(("go test ./..."@, seq!["go"@, "test"@, "./..."@])),
        ProjectType::Make => Some(("make test"@, seq!["make"@, "test"@])),
        ProjectType::Unknown => None,
    }
}

pub open spec fn command_view(c: Option<(&'static str, Vec<&'static str>)>) -> Option<(Seq<char>, Seq<Seq<char>>)> {
    match c {
        Some(p) => Some((p.0@, argv_of(p.1@))),
        None => None,
    }
}

/// Return the test command for a given project type.
pub fn test_command_for_project(project_type: &ProjectType) -> (r: Option<(&'static str, Vec<&'static str>)>)
    ensures
        command_view(r) == project_test_command(*project_type),
{
    match project_type {
        ProjectType::Rust => Some(("cargo test", words_vec2("cargo", "test"))),
        ProjectType::Node => Some(("npm test", words_vec2("npm", "test"))),
        ProjectType::Python => Some(("python -m pytest", words_vec3("python", "-m", "pytest"))),
        ProjectType::Go => Some(("go test ./...", words_vec3("go", "test", "./..."))),
        ProjectType::Make => Some(("make test", words_vec2("make", "test"))),
        ProjectType::Unknown => None,
    }
}

/// The lint command of a project type: how it is shown and its words.
pub open spec fn project_lint_command(t: ProjectType) -> Option<(Seq<char>, Seq<Seq<char>>)> {
    match t {
        ProjectType::Rust => Some(
            (
                "cargo clippy --all-targets -- -D warnings"@,
                seq!["cargo"@, "clippy"@, "--all-targets"@, "--"@, "-D"@, "warnings"@],
            ),
        ),
        ProjectType::Node => Some(("npx eslint ."@, seq!["npx"@, "eslint"@, "."@])),
        ProjectType::Python => Some(("ruff check ."@, seq!["ruff"@, "check"@, "."@])),
        ProjectType::Go => Some(("golangci-lint run"@, seq!["golangci-lint"@, "run"@])),
        ProjectType::Make | ProjectType::Unknown => None,
    }
}

/// Return the lint command for a given project type.
pub fn lint_command_for_project(project_type: &ProjectType) -> (r: Option<(&'static str, Vec<&'static str>)>)
    ensures
        command_view(r) == project_lint_command(*project_type),
{
    match project_type {
        ProjectType::Rust => Some(("cargo clippy --all-targets -- -D warnings", clippy_words())),
        ProjectType::Node => Some(("npx eslint .", words_vec3("npx", "eslint", "."))),
        ProjectType::Python => Some(("ruff check .", words_vec3("ruff", "check", "."))),
        ProjectType::Go => Some(("golangci-lint run", words_vec2("golangci-lint", "run"))),
        ProjectType::Make | ProjectType::Unknown => None,
    }
}

/// One failing check in the fix request.
pub open spec fn failure_section(name: Seq<char>, output: Seq<char>) -> Seq<char> {
    "## "@ + name + " errors:\n```\n"@ + output + "\n```\n\n"@
}

pub open spec fn failure_sections(fs: Seq<(Seq<char>, Seq<char>)>, k: int) -> Seq<char>
    decreases k,
{
    if k <= 0 {
        seq![]
    } else {
        failure_sections(fs, k - 1) + failure_section(fs[k - 1].0, fs[k - 1].1)
    }
}

/// The request to fix failing checks (nothing when none failed).
pub open spec fn fix_prompt_text(fs: Seq<(Seq<char>, Seq<char>)>) -> Seq<char> {
    if fs.len() == 0 {
        seq![]
    } else {
        "Fix the following build/lint errors in this project. Read the relevant files, understand the errors, and apply fixes:\n\n"@
            + failure_sections(fs, fs.len() as int)
            + "After fixing, run the failing checks again to verify. Fix any remaining issues."@
    }
}

/// Build a prompt describing health check failures (name, output) for the
/// AI to fix.
pub fn build_fix_prompt(failures: &Vec<(String, String)>) -> (r: String)
    ensures
        r@ == fix_prompt_text(failures@.map_values(|f: (String, String)| (f.0@, f.1@))),
{
    let ghost fv = failures@.map_values(|f: (String, String)| (f.0@, f.1@));
    let mut out: Vec<char> = Vec::new();
    if failures.len() == 0 {
        assert(out@ =~= fix_prompt_text(fv));
        return string_of(out.as_slice());
    }
    push_str(
        &mut out,
        "Fix the following build/lint errors in this project. Read the relevant files, understand the errors, and apply fixes:\n\n",
    );
    let ghost head = out@;
    let mut i: usize = 0;
    while i < failures.len()
        invariant
            i <= failures@.len(),
            fv == failures@.map_values(|f: (String, String)| (f.0@, f.1@)),
            out@ == head + failure_sections(fv, i as int),
        decreases failures@.len() - i,
    {
        push_str(&mut out, "## ");
        push_str(&mut out, failures[i].0.as_str());
        push_str(&mut out, " errors:\n```\n");
        push_str(&mut out, failures[i].1.as_str());
        push_str(&mut out, "\n```\n\n");
        assert(out@ =~= head + failure_sections(fv, i + 1));
        i += 1;
    }
    push_str(&mut out, "After fixing, run the failing checks again to verify. Fix any remaining issues.");
    assert(out@ =~= fix_prompt_text(fv));
    string_of(out.as_slice())
}

/// The last (at most) 20 lines of a text.
pub open spec fn last_lines(ls: Seq<Seq<char>>) -> Seq<Seq<char>> {
    if ls.len() > 20 {
        ls.skip(ls.len() - 20)
    } else {
        ls
    }
}

pub open spec fn line_block(ls: Seq<Seq<char>>, k: int) -> Seq<char>
    decreases k,
{
    if k <= 0 {
        seq![]
    } else {
        line_block(ls, k - 1) + ls[k - 1] + "\n"@
    }
}

/// What `/test` or `/lint` hands on after running: that it passed, or that
/// it failed with the exit code and the last 20 lines of its error output
/// (standard error, or standard output when that is empty).
pub open spec fn run_summary_text(
    kind: Seq<char>,
    label: Seq<char>,
    elapsed: Seq<char>,
    success: bool,
    code: int,
    stdout: Seq<char>,
    stderr: Seq<char>,
) -> Seq<char> {
    if success {
        kind + " passed ("@ + elapsed + "): "@ + label
    } else {
        let text = if stderr.len() > 0 {
            stderr
        } else {
            stdout
        };
        let ls = last_lines(lines(text));
        kind + " FAILED (exit "@ + dec_signed(code) + ", "@ + elapsed + "): "@ + label + "\n\nLast output:\n"@
            + line_block(ls, ls.len() as int)
    }
}

/// The summary `/test` (`kind` = `Tests`) or `/lint` (`Lint`) hands on.
pub fn run_summary(
    kind: &str,
    label: &str,
    elapsed: &str,
    success: bool,
    code: i32,
    stdout: &str,
    stderr: &str,
) -> (r: String)
    ensures
        r@ == run_summary_text(kind@, label@, elapsed@, success, code as int, stdout@, stderr@),
{
    let mut out = chars_of(kind);
    if success {
        push_str(&mut out, " passed (");
        push_str(&mut out, elapsed);
        push_str(&mut out, "): ");
        push_str(&mut out, label);
        return string_of(out.as_slice());
    }
    push_str(&mut out, " FAILED (exit ");
    push_dec_signed(&mut out, code as i64);
    push_str(&mut out, ", ");
    push_str(&mut out, elapsed);
    push_str(&mut out, "): ");
    push_str(&mut out, label);
    push_str(&mut out, "\n\nLast output:\n");
    let ev = chars_of(stderr);
    let text = if ev.len() > 0 {
        ev
    } else {
        chars_of(stdout)
    };
    let all = lines_exec(text.as_slice());
    let n = all.len();
    let start: usize = if n > 20 { n - 20 } else { 0 };
    let ghost lv = all.deep_view();
    let ghost ls = last_lines(lv);
    assert(ls =~= lv.skip(start as int));
    let ghost head = out@;
    let mut i: usize = start;
    while i < n
        invariant
            start <= i <= n,
            n == all@.len(),
            lv == all.deep_view(),
            ls =~= lv.skip(start as int),
            out@ == head + line_block(ls, i - start),
        decreases n - i,
    {
        assert(all@[i as int]@ == lv[i as int]);
        assert(ls[i - start] == lv[i as int]);
        push_all(&mut out, all[i].as_slice());
        push_str(&mut out, "\n");
        assert(out@ =~= head + line_block(ls, i - start + 1));
        i += 1;
    }
    assert(out@ =~= run_summary_text(kind@, label@, elapsed@, success, code as int, stdout@, stderr@));
    string_of(out.as_slice())
}

/// The command `/run <command>` or `!<command>` runs (nothing for neither).
pub open spec fn run_command_of(input: Seq<char>) -> Seq<char> {
    if starts_with(input, "/run "@) {
        trim(crate::research::strip_prefixes(input, "/run "@))
    } else if input.len() > 1 && input[0] == '!' {
        trim(input.drop_first())
    } else {
        seq![]
    }
}

/// The command `/run <command>` or `!<command>` runs (empty for neither).
pub fn run_command_text(input: &str) -> (r: String)
    ensures
        r@ == run_command_of(input@),
{
    let v = chars_of(input);
    let pre = chars_of("/run ");
    if starts_with_exec(v.as_slice(), pre.as_slice()) {
        let s = crate::research::strip_prefixes_exec(v.as_slice(), "/run ");
        return string_of(trim_vec(s.as_slice()).as_slice());
    }
    if v.len() > 1 && v[0] == '!' {
        let t = slice_of(v.as_slice(), 1, v.len());
        assert(t@ =~= v@.drop_first());
        return string_of(trim_vec(t.as_slice()).as_slice());
    }
    let e: Vec<char> = Vec::new();
    string_of(e.as_slice())
}

/// What `/run` prints after a command exits with `code`.
pub open spec fn exit_line_text(code: int, elapsed: Seq<char>) -> Seq<char> {
    if code == 0 {
        DIM@ + "  ✓ exit "@ + dec_signed(code) + " ("@ + elapsed + ")"@ + RESET@ + "\n"@
    } else {
        RED@ + "  ✗ exit "@ + dec_signed(code) + " ("@ + elapsed + ")"@ + RESET@ + "\n"@
    }
}

/// What `/run` prints after a command exits with `code`.
pub fn exit_line(code: i32, elapsed: &str) -> (r: String)
    ensures
        r@ == exit_line_text(code as int, elapsed@),
{
    let mut out: Vec<char> = Vec::new();
    if code == 0 {
        push_str(&mut out, DIM);
        push_str(&mut out, "  ✓ exit ");
    } else {
        push_str(&mut out, RED);
        push_str(&mut out, "  ✗ exit ");
    }
    push_dec_signed(&mut out, code as i64);
    push_str(&mut out, " (");
    push_str(&mut out, elapsed);
    push_str(&mut out, ")");
    push_str(&mut out, RESET);
    push_str(&mut out, "\n");
    assert(out@ =~= exit_line_text(code as int, elapsed@));
    string_of(out.as_slice())
}

/// The depth `/tree [depth]` asks for: 3 by default, `None` for a
/// non-number.
pub open spec fn tree_depth_of(arg: Seq<char>) -> Option<nat> {
    if arg.len() == 0 {
        Some(3)
    } else {
        parse_uint(arg, usize::MAX as nat)
    }
}

/// The depth `/tree [depth]` asks for.
pub fn tree_depth(arg: &str) -> (r: Option<usize>)
    ensures
        match r {
            Some(d) => tree_depth_of(arg@) == Some(d as nat),
            None => tree_depth_of(arg@) is None,
        },
{
    let v = chars_of(arg);
    if v.len() == 0 {
        return Some(3);
    }
    match parse_uint_exec(v.as_slice(), usize::MAX as u64) {
        Some(d) => Some(d as usize),
        None => None,
    }
}

/// The crate and item of `/docs <crate> [item]` (`None`: show the usage).
pub open spec fn docs_args_of(input: Seq<char>) -> Option<(Seq<char>, Seq<char>)> {
    if input == "/docs"@ {
        None
    } else {
        let args = trim(crate::research::strip_prefixes(input, "/docs "@));
        if args.len() == 0 {
            None
        } else {
            match split_once_ws(args) {
                Some((c, i)) => Some((trim(c), trim(i))),
                None => Some((trim(args), seq![])),
            }
        }
    }
}

/// Read the crate and item of `/docs <crate> [item]`.
pub fn docs_args(input: &str) -> (r: Option<(String, String)>)
    ensures
        match docs_args_of(input@) {
            Some((c, i)) => r matches Some(p) && p.0@ == c && p.1@ == i,
            None => r is None,
        },
{
    let v = chars_of(input);
    if eq_str(v.as_slice(), "/docs") {
        return None;
    }
    let s = crate::research::strip_prefixes_exec(v.as_slice(), "/docs ");
    let args = trim_vec(s.as_slice());
    if args.len() == 0 {
        return None;
    }
    match split_once_ws_exec(args.as_slice()) {
        Some((c, i)) => Some((string_of(trim_vec(c.as_slice()).as_slice()), string_of(trim_vec(i.as_slice()).as_slice()))),
        None => {
            let e: Vec<char> = Vec::new();
            Some((string_of(trim_vec(args.as_slice()).as_slice()), string_of(e.as_slice())))
        },
    }
}

/// How a looked-up item is named: the crate, or `crate::item`.
pub open spec fn docs_label_of(krate: Seq<char>, item: Seq<char>) -> Seq<char> {
    if item.len() == 0 {
        krate
    } else {
        krate + "::"@ + item
    }
}

/// How a looked-up item is named.
pub fn docs_label(krate: &str, item: &str) -> (r: String)
    ensures
        r@ == docs_label_of(krate@, item@),
{
    let mut out = chars_of(krate);
    if chars_of(item).len() > 0 {
        push_str(&mut out, "::");
        push_str(&mut out, item);
    }
    string_of(out.as_slice())
}

// ───────────────────────── /tree ─────────────────────────

/// The key a directory is remembered by: its path (the first `level + 1`
/// parts joined by `/`) and a final `/`.
pub open spec fn dir_key(parts: Seq<Seq<char>>, level: int) -> Seq<char> {
    join(parts.take(level + 1), "/"@) + "/"@
}

/// The directory lines for levels `level` up to (not including) `upto` of
/// one path: each directory not printed before, indented by its level.
pub open spec fn tree_dirs(
    parts: Seq<Seq<char>>,
    level: int,
    upto: int,
    out: Seq<char>,
    printed: Seq<Seq<char>>,
) -> (Seq<char>, Seq<Seq<char>>)
    decreases upto - level,
{
    if level < 0 || level >= upto {
        (out, printed)
    } else {
        let key = dir_key(parts, level);
        if printed.contains(key) {
            tree_dirs(parts, level + 1, upto, out, printed)
        } else {
            tree_dirs(
                parts,
                level + 1,
                upto,
                out + repeat(' ', (2 * level) as nat) + parts[level] + "/\n"@,
                printed.push(key),
            )
        }
    }
}

/// The tree after one more path: its new directories, then the file itself
/// when it is no deeper than `max_depth`.
pub open spec fn tree_path(path: Seq<char>, max_depth: nat, out: Seq<char>, printed: Seq<Seq<char>>) -> (Seq<char>, Seq<Seq<char>>) {
    let parts = split_on(path, '/');
    let depth = parts.len() - 1;
    let upto = if depth < max_depth {
        depth
    } else {
        max_depth as int
    };
    let (o1, p1) = tree_dirs(parts, 0, upto, out, printed);
    if depth <= max_depth {
        (o1 + repeat(' ', (2 * depth) as nat) + parts.last() + "\n"@, p1)
    } else {
        (o1, p1)
    }
}

/// The tree of the first `k` paths.
pub open spec fn tree_all(paths: Seq<Seq<char>>, k: int, max_depth: nat) -> (Seq<char>, Seq<Seq<char>>)
    decreases k,
{
    if k <= 0 {
        (seq![], seq![])
    } else {
        let (o, p) = tree_all(paths, k - 1, max_depth);
        tree_path(paths[k - 1], max_depth, o, p)
    }
}

/// The indented tree of the paths, without a final line break.
pub open spec fn tree_text(paths: Seq<Seq<char>>, max_depth: nat) -> Seq<char> {
    let o = tree_all(paths, paths.len() as int, max_depth).0;
    if o.len() > 0 && o.last() == '\n' {
        o.drop_last()
    } else {
        o
    }
}

fn printed_has(printed: &Vec<Vec<char>>, key: &[char]) -> (r: bool)
    ensures
        r == printed.deep_view().contains(key@),
{
    let ghost pv = printed.deep_view();
    let mut i: usize = 0;
    while i < printed.len()
        invariant
            i <= printed@.len(),
            pv == printed.deep_view(),
            forall|j: int| 0 <= j < i ==> pv[j] != key@,
        decreases printed@.len() - i,
    {
        assert(printed@[i as int]@ == pv[i as int]);
        if eq_exec(printed[i].as_slice(), key) {
            return true;
        }
        i += 1;
    }
    false
}

fn tree_one(out: &mut Vec<char>, printed: &mut Vec<Vec<char>>, path: &str, max_depth: usize)
    requires
        max_depth < usize::MAX / 4,
    ensures
        (final(out)@, final(printed).deep_view()) == tree_path(path@, max_depth as nat, old(out)@, old(printed).deep_view()),
{
    let parts = split_char(chars_of(path).as_slice(), '/');
    let ghost pv = parts.deep_view();
    proof {
        reveal_strlit("/");
    }
    assert(pv.len() > 0);
    let n = parts.len();
    let depth = n - 1;
    let upto: usize = if depth < max_depth { depth } else { max_depth };
    let mut key: Vec<char> = Vec::new();
    let mut level: usize = 0;
    while level < upto
        invariant
            level <= upto,
            upto <= n - 1,
            n == parts@.len(),
            n > 0,
            pv == parts.deep_view(),
            upto < usize::MAX / 4,
            level > 0 ==> key@ == join(pv.take(level as int), "/"@),
            tree_dirs(pv, 0, upto as int, old(out)@, old(printed).deep_view()) == tree_dirs(
                pv,
                level as int,
                upto as int,
                out@,
                printed.deep_view(),
            ),
        decreases upto - level,
    {
        assert(parts@[level as int]@ == pv[level as int]);
        proof {
            reveal_strlit("/");
        }
        if level == 0 {
            key = slice_of(parts[0].as_slice(), 0, parts[0].len());
            assert(pv.take(1) =~= seq![pv[0]]);
        } else {
            let ghost k0 = key@;
            key.push('/');
            push_all(&mut key, parts[level].as_slice());
            assert(pv.take(level + 1).drop_last() =~= pv.take(level as int));
            assert(pv.take(level + 1).last() == pv[level as int]);
            assert(key@ =~= k0 + "/"@ + pv[level as int]);
        }
        assert(key@ == join(pv.take(level + 1), "/"@));
        let mut k2 = slice_of(key.as_slice(), 0, key.len());
        k2.push('/');
        assert(k2@ =~= key@ + "/"@);
        assert(k2@ == dir_key(pv, level as int));
        if !printed_has(printed, k2.as_slice()) {
            let ghost before = printed.deep_view();
            let ghost kv = k2@;
            push_repeat(out, ' ', 2 * level);
            push_all(out, parts[level].as_slice());
            push_str(out, "/\n");
            crate::text::push_word(printed, k2);
            assert(printed.deep_view() =~= before.push(kv));
        }
        level += 1;
    }
    if depth <= max_depth {
        assert(parts@[depth as int]@ == pv.last());
        push_repeat(out, ' ', 2 * depth);
        push_all(out, parts[depth].as_slice());
        push_str(out, "\n");
    }
}

/// Format a sorted list of file paths into an indented tree string: each
/// directory (down to `max_depth`) once before the first file under it, and
/// each file no deeper than `max_depth`, indented two spaces per level.
pub fn format_tree_from_paths(paths: &Vec<String>, max_depth: usize) -> (r: String)
    requires
        max_depth < usize::MAX / 4,
    ensures
        r@ == tree_text(paths@.map_values(|p: String| p@), max_depth as nat),
{
    let ghost pv = paths@.map_values(|p: String| p@);
    let mut out: Vec<char> = Vec::new();
    let mut printed: Vec<Vec<char>> = Vec::new();
    assert(printed.deep_view() =~= Seq::<Seq<char>>::empty());
    let mut i: usize = 0;
    while i < paths.len()
        invariant
            i <= paths@.len(),
            pv == paths@.map_values(|p: String| p@),
            max_depth < usize::MAX / 4,
            (out@, printed.deep_view()) == tree_all(pv, i as int, max_depth as nat),
        decreases paths@.len() - i,
    {
        tree_one(&mut out, &mut printed, paths[i].as_str(), max_depth);
        i += 1;
    }
    let n = out.len();
    if n > 0 && out[n - 1] == '\n' {
        let t = slice_of(out.as_slice(), 0, n - 1);
        assert(t@ =~= out@.drop_last());
        return string_of(t.as_slice());
    }
    string_of(out.as_slice())
}

} // verus!
