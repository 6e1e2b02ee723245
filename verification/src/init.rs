//! `/init`: the starter project context file: the project's name (from its
//! manifest or README), its kind, commands, and key files and directories.
use vstd::prelude::*;
use crate::devtools::{pairs_of, project_commands, project_type_label, project_type_name, build_commands_for_project, ProjectType};
use crate::index::{pad_right, push_pad_right};
use crate::text::{
    chars_of, lines, lines_exec, push_all, push_str, slice_of, starts_with, starts_with_exec,
    string_of, trim, trim_vec,
};
use crate::tracking::{strip_trail, strip_trail_exec, trim_char, trim_char_exec};

verus! {

/// The files `/init` lists when present.
pub const IMPORTANT_FILES: [&'static str; 36] = [
    "README.md",
    "README",
    "readme.md",
    "LICENSE",
    "LICENSE.md",
    "CHANGELOG.md",
    "CONTRIBUTING.md",
    ".gitignore",
    ".editorconfig",
    "Cargo.toml",
    "Cargo.lock",
    "rust-toolchain.toml",
    "package.json",
    "package-lock.json",
    "tsconfig.json",
    ".eslintrc.json",
    ".eslintrc.js",
    ".prettierrc",
    "pyproject.toml",
    "setup.py",
    "setup.cfg",
    "requirements.txt",
    "Pipfile",
    "tox.ini",
    "go.mod",
    "go.sum",
    "Makefile",
    "Dockerfile",
    "docker-compose.yml",
    "docker-compose.yaml",
    ".dockerignore",
    ".github/workflows",
    ".gitlab-ci.yml",
    ".circleci/config.yml",
    ".travis.yml",
    "Jenkinsfile",
];

/// The directories `/init` lists when present.
pub const IMPORTANT_DIRS: [&'static str; 16] = [
    "src",
    "lib",
    "tests",
    "test",
    "docs",
    "doc",
    "examples",
    "benches",
    "scripts",
    ".github",
    ".vscode",
    "config",
    "public",
    "static",
    "assets",
    "migrations",
];

/// The README files a project title is looked for in, in order.
pub const README_NAMES: [&'static str; 3] = ["README.md", "readme.md", "README"];

/// Where a project name is read from.
#[derive(Debug, Clone, Copy, PartialEq, Eq, Structural)]
pub enum NameSource {
    /// `Cargo.toml`: a `name = "..."` line.
    Cargo,
    /// `package.json`: a `"name": "..."` line.
    Package,
    /// A README: its first `# Title` line.
    Readme,
}

/// The name one line gives, read as `src` reads it.
pub open spec fn name_in_line(src: NameSource, line: Seq<char>) -> Option<Seq<char>> {
    match src {
        NameSource::Cargo => {
            let t = trim(line);
            if starts_with(t, "name"@) {
                let rest = trim(t.skip(4));
                if starts_with(rest, "="@) {
                    let val = trim_char(trim_char(trim(rest.skip(1)), '"'), '\'');
                    if val.len() > 0 {
                        Some(val)
                    } else {
                        None
                    }
                } else {
                    None
                }
            } else {
                None
            }
        },
        NameSource::Package => {
            let t = strip_trail(trim(line), ',');
            if starts_with(t, "\"name\""@) {
                let rest = trim(t.skip(6));
                if starts_with(rest, ":"@) {
                    let val = trim_char(trim(rest.skip(1)), '"');
                    if val.len() > 0 {
                        Some(val)
                    } else {
                        None
                    }
                } else {
                    None
                }
            } else {
                None
            }
        },
        NameSource::Readme => {
            let t = trim(line);
            if starts_with(t, "# "@) {
                let title = trim(t.skip(2));
                if title.len() > 0 {
                    Some(title)
                } else {
                    None
                }
            } else {
                None
            }
        },
    }
}

/// The first name the lines from index `i` on give.
pub open spec fn first_name(src: NameSource, ls: Seq<Seq<char>>, i: int) -> Option<Seq<char>>
    decreases ls.len() - i,
{
    if i < 0 || i >= ls.len() {
        None
    } else {
        match name_in_line(src, ls[i]) {
            Some(n) => Some(n),
            None => first_name(src, ls, i + 1),
        }
    }
}

fn tail_after(s: &[char], k: usize) -> (r: Vec<char>)
    requires
        k <= s@.len(),
    ensures
        r@ == s@.skip(k as int),
{
    let t = slice_of(s, k, s.len());
    assert(t@ =~= s@.skip(k as int));
    t
}

fn name_in_line_exec(src: NameSource, line: &[char]) -> (r: Option<Vec<char>>)
    ensures
        match name_in_line(src, line@) {
            Some(n) => r matches Some(v) && v@ == n,
            None => r is None,
        },
{
    proof {
        reveal_strlit("name");
        reveal_strlit("=");
        reveal_strlit("\"name\"");
        reveal_strlit(":");
        reveal_strlit("# ");
    }
    match src {
        NameSource::Cargo => {
            let t = trim_vec(line);
            if !starts_with_exec(t.as_slice(), chars_of("name").as_slice()) {
                return None;
            }
            let rest = trim_vec(tail_after(t.as_slice(), 4).as_slice());
            if !starts_with_exec(rest.as_slice(), chars_of("=").as_slice()) {
                return None;
            }
            let a = trim_vec(tail_after(rest.as_slice(), 1).as_slice());
            let b = trim_char_exec(a.as_slice(), '"');
            let val = trim_char_exec(b.as_slice(), '\'');
            if val.len() > 0 {
                Some(val)
            } else {
                None
            }
        },
        NameSource::Package => {
            let t0 = trim_vec(line);
            let t = strip_trail_exec(t0.as_slice(), ',');
            if !starts_with_exec(t.as_slice(), chars_of("\"name\"").as_slice()) {
                return None;
            }
            let rest = trim_vec(tail_after(t.as_slice(), 6).as_slice());
            if !starts_with_exec(rest.as_slice(), chars_of(":").as_slice()) {
                return None;
            }
            let a = trim_vec(tail_after(rest.as_slice(), 1).as_slice());
            let val = trim_char_exec(a.as_slice(), '"');
            if val.len() > 0 {
                Some(val)
            } else {
                None
            }
        },
        NameSource::Readme => {
            let t = trim_vec(line);
            if !starts_with_exec(t.as_slice(), chars_of("# ").as_slice()) {
                return None;
            }
            let title = trim_vec(tail_after(t.as_slice(), 2).as_slice());
            if title.len() > 0 {
                Some(title)
            } else {
                None
            }
        },
    }
}

/// The project name a file's text gives, read as `src` reads it.
pub fn extract_name(src: NameSource, content: &str) -> (r: Option<String>)
    ensures
        match first_name(src, lines(content@), 0) {
            Some(n) => r matches Some(v) && v@ == n,
            None => r is None,
        },
{
    let ls = lines_exec(chars_of(content).as_slice());
    let ghost lv = ls.deep_view();
    let mut i: usize = 0;
    while i < ls.len()
        invariant
            i <= ls@.len(),
            lv == ls.deep_view(),
            lv == lines(content@),
            first_name(src, lv, 0) == first_name(src, lv, i as int),
        decreases ls@.len() - i,
    {
        assert(ls@[i as int]@ == lv[i as int]);
        match name_in_line_exec(src, ls[i].as_slice()) {
            Some(v) => {
                return Some(string_of(v.as_slice()));
            },
            None => {},
        }
        i += 1;
    }
    None
}

/// Extract the project name from Cargo.toml [package] name field.
pub fn extract_name_from_cargo_toml(content: &str) -> (r: Option<String>)
    ensures
        match first_name(NameSource::Cargo, lines(content@), 0) {
            Some(n) => r matches Some(v) && v@ == n,
            None => r is None,
        },
{
    extract_name(NameSource::Cargo, content)
}

/// Extract the project name from package.json "name" field.
pub fn extract_name_from_package_json(content: &str) -> (r: Option<String>)
    ensures
        match first_name(NameSource::Package, lines(content@), 0) {
            Some(n) => r matches Some(v) && v@ == n,
            None => r is None,
        },
{
    extract_name(NameSource::Package, content)
}

/// The title the first of the READMEs (their texts, in `README_NAMES`
/// order, of those that exist) gives, from index `i` on.
pub open spec fn readme_title(readmes: Seq<Seq<char>>, i: int) -> Option<Seq<char>>
    decreases readmes.len() - i,
{
    if i < 0 || i >= readmes.len() {
        None
    } else {
        match first_name(NameSource::Readme, lines(readmes[i]), 0) {
            Some(n) => Some(n),
            None => readme_title(readmes, i + 1),
        }
    }
}

/// Extract the project name from the title line (`# Title`) of the READMEs.
pub fn extract_project_name_from_readme(readmes: &Vec<String>) -> (r: Option<String>)
    ensures
        match readme_title(readmes@.map_values(|s: String| s@), 0) {
            Some(n) => r matches Some(v) && v@ == n,
            None => r is None,
        },
{
    let ghost rv = readmes@.map_values(|s: String| s@);
    let mut i: usize = 0;
    while i < readmes.len()
        invariant
            i <= readmes@.len(),
            rv == readmes@.map_values(|s: String| s@),
            readme_title(rv, 0) == readme_title(rv, i as int),
        decreases readmes@.len() - i,
    {
        assert(readmes@[i as int]@ == rv[i as int]);
        match extract_name(NameSource::Readme, readmes[i].as_str()) {
            Some(v) => {
                return Some(v);
            },
            None => {},
        }
        i += 1;
    }
    None
}

pub open spec fn opt_text(o: Option<&str>) -> Option<Seq<char>> {
    match o {
        Some(s) => Some(s@),
        None => None,
    }
}

/// The project's name: from `Cargo.toml`, else `package.json`, else a
/// README title, else the directory's name, else `my-project`.
pub open spec fn project_name_of(
    cargo: Option<Seq<char>>,
    package: Option<Seq<char>>,
    readmes: Seq<Seq<char>>,
    dir_name: Option<Seq<char>>,
) -> Seq<char> {
    let from_cargo = match cargo {
        Some(c) => first_name(NameSource::Cargo, lines(c), 0),
        None => None,
    };
    let from_package = match package {
        Some(p) => first_name(NameSource::Package, lines(p), 0),
        None => None,
    };
    match from_cargo {
        Some(n) => n,
        None => match from_package {
            Some(n) => n,
            None => match readme_title(readmes, 0) {
                Some(n) => n,
                None => match dir_name {
                    Some(d) => d,
                    None => "my-project"@,
                },
            },
        },
    }
}

/// Best-effort project name detection from the manifests' and READMEs'
/// texts (those that exist) and the directory's name.
pub fn detect_project_name(cargo: Option<&str>, package: Option<&str>, readmes: &Vec<String>, dir_name: Option<&str>) -> (r: String)
    ensures
        r@ == project_name_of(opt_text(cargo), opt_text(package), readmes@.map_values(|s: String| s@), opt_text(dir_name)),
{
    match cargo {
        Some(c) => match extract_name_from_cargo_toml(c) {
            Some(n) => {
                return n;
            },
            None => {},
        },
        None => {},
    }
    match package {
        Some(p) => match extract_name_from_package_json(p) {
            Some(n) => {
                return n;
            },
            None => {},
        },
        None => {},
    }
    match extract_project_name_from_readme(readmes) {
        Some(n) => {
            return n;
        },
        None => {},
    }
    match dir_name {
        Some(d) => string_of(chars_of(d).as_slice()),
        None => string_of(chars_of("my-project").as_slice()),
    }
}

pub open spec fn command_lines(cs: Seq<(Seq<char>, Seq<char>)>, k: int) -> Seq<char>
    decreases k,
{
    if k <= 0 {
        seq![]
    } else {
        command_lines(cs, k - 1) + pad_right(cs[k - 1].1, 50) + " # "@ + cs[k - 1].0 + "\n"@
    }
}

pub open spec fn item_lines(v: Seq<Seq<char>>, k: int, dir: bool) -> Seq<char>
    decreases k,
{
    if k <= 0 {
        seq![]
    } else {
        item_lines(v, k - 1, dir) + "- `"@ + v[k - 1] + (if dir {
            "/"@
        } else {
            seq![]
        }) + "`\n"@
    }
}

/// The build section of the context file.
pub open spec fn build_section(t: ProjectType) -> Seq<char> {
    let cs = project_commands(t);
    if cs.len() == 0 {
        "<!-- Add build, test, and run commands for this project. -->\n\n"@
    } else {
        "```bash\n"@ + command_lines(cs, cs.len() as int) + "```\n\n"@
    }
}

/// The important files section's body.
pub open spec fn files_section(files: Seq<Seq<char>>, dirs: Seq<Seq<char>>) -> Seq<char> {
    if files.len() == 0 && dirs.len() == 0 {
        "<!-- List key files and directories the agent should know about. -->\n"@
    } else {
        (if dirs.len() > 0 {
            "Key directories:\n"@ + item_lines(dirs, dirs.len() as int, true) + "\n"@
        } else {
            seq![]
        }) + if files.len() > 0 {
            "Key files:\n"@ + item_lines(files, files.len() as int, false) + "\n"@
        } else {
            seq![]
        }
    }
}

/// The starter context file `/init` writes.
pub open spec fn init_text(t: ProjectType, name: Seq<char>, files: Seq<Seq<char>>, dirs: Seq<Seq<char>>) -> Seq<char> {
    "# Project Context\n\n<!-- YOYO.md — from `yoyo /init`. Edit to customize. -->\n<!-- Also read by other tools that look for a context file. -->\n\n## About This Project\n\n**"@
        + name + "**"@ + (if t != ProjectType::Unknown {
        " — "@ + project_type_name(t) + " project"@
    } else {
        seq![]
    }) + "\n\n<!-- Add a description of what this project does. -->\n\n## Build & Test\n\n"@ + build_section(t)
        + "## Coding Conventions\n\n<!-- List any coding standards, naming conventions, or patterns to follow. -->\n\n## Important Files\n\n"@
        + files_section(files, dirs)
}

fn push_items(out: &mut Vec<char>, v: &Vec<String>, dir: bool)
    ensures
        final(out)@ == old(out)@ + item_lines(v@.map_values(|s: String| s@), v@.len() as int, dir),
{
    let ghost vv = v@.map_values(|s: String| s@);
    let ghost start = out@;
    let mut i: usize = 0;
    while i < v.len()
        invariant
            i <= v@.len(),
            vv == v@.map_values(|s: String| s@),
            out@ == start + item_lines(vv, i as int, dir),
        decreases v@.len() - i,
    {
        push_str(out, "- `");
        push_str(out, v[i].as_str());
        if dir {
            push_str(out, "/");
        }
        push_str(out, "`\n");
        assert(out@ =~= start + item_lines(vv, i + 1, dir));
        i += 1;
    }
}

fn push_build_section(out: &mut Vec<char>, t: ProjectType)
    ensures
        final(out)@ == old(out)@ + build_section(t),
{
    let ghost start = out@;
    let cmds = build_commands_for_project(&t);
    let ghost cv = pairs_of(cmds@);
    if cmds.len() == 0 {
        push_str(out, "<!-- Add build, test, and run commands for this project. -->\n\n");
    } else {
        push_str(out, "```bash\n");
        let ghost mid = out@;
        let mut i: usize = 0;
        while i < cmds.len()
            invariant
                i <= cmds@.len(),
                cv == pairs_of(cmds@),
                out@ == mid + command_lines(cv, i as int),
            decreases cmds@.len() - i,
        {
            let (label, cmd) = cmds[i];
            push_pad_right(out, chars_of(cmd).as_slice(), 50);
            push_str(out, " # ");
            push_str(out, label);
            push_str(out, "\n");
            assert(out@ =~= mid + command_lines(cv, i + 1));
            i += 1;
        }
        push_str(out, "```\n\n");
    }
    assert(out@ =~= start + build_section(t));
}

fn push_files_section(out: &mut Vec<char>, files: &Vec<String>, dirs: &Vec<String>)
    ensures
        final(out)@ == old(out)@ + files_section(
            files@.map_values(|s: String| s@),
            dirs@.map_values(|s: String| s@),
        ),
{
    let ghost start = out@;
    if files.len() == 0 && dirs.len() == 0 {
        push_str(out, "<!-- List key files and directories the agent should know about. -->\n");
    } else {
        if dirs.len() > 0 {
            push_str(out, "Key directories:\n");
            push_items(out, dirs, true);
            push_str(out, "\n");
        }
        let ghost mid = out@;
        if files.len() > 0 {
            push_str(out, "Key files:\n");
            push_items(out, files, false);
            push_str(out, "\n");
        }
    }
    assert(out@ =~= start + files_section(files@.map_values(|s: String| s@), dirs@.map_values(|s: String| s@)));
}

/// Generate a complete context file from what a scan of the project found:
/// its kind, its name, and the important files and directories present.
pub fn generate_init_content(project_type: ProjectType, name: &str, files: &Vec<String>, dirs: &Vec<String>) -> (r: String)
    ensures
        r@ == init_text(project_type, name@, files@.map_values(|s: String| s@), dirs@.map_values(|s: String| s@)),
{
    let mut out = chars_of(
        "# Project Context\n\n<!-- YOYO.md — from `yoyo /init`. Edit to customize. -->\n<!-- Also read by other tools that look for a context file. -->\n\n## About This Project\n\n**",
    );
    push_str(&mut out, name);
    push_str(&mut out, "**");
    if project_type != ProjectType::Unknown {
        push_str(&mut out, " — ");
        push_str(&mut out, project_type_label(project_type));
        push_str(&mut out, " project");
    }
    push_str(&mut out, "\n\n<!-- Add a description of what this project does. -->\n\n## Build & Test\n\n");
    push_build_section(&mut out, project_type);
    push_str(
        &mut out,
        "## Coding Conventions\n\n<!-- List any coding standards, naming conventions, or patterns to follow. -->\n\n## Important Files\n\n",
    );
    push_files_section(&mut out, files, dirs);
    assert(out@ =~= init_text(project_type, name@, files@.map_values(|s: String| s@), dirs@.map_values(|s: String| s@)));
    string_of(out.as_slice())
}

} // verus!
