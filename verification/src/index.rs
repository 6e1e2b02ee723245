//! `/index`: a table of the project's text files with their line counts and
//! first meaningful lines.
use vstd::prelude::*;
use crate::text::{
    byte_boundary, byte_len, boundary_exec, boundary_index, chars_of, dec, lines, lines_exec,
    lower_text, push_all, push_dec, push_repeat, push_str, repeat, slice_of, str_byte_len,
    string_of, to_lower, trim, trim_vec,
};

verus! {

/// The file endings `/index` treats as binary.
pub open spec fn binary_exts() -> Seq<Seq<char>> {
    seq![
        ".png"@, ".jpg"@, ".jpeg"@, ".gif"@, ".bmp"@, ".webp"@, ".ico"@, ".svg"@, ".woff"@,
        ".woff2"@, ".ttf"@, ".otf"@, ".eot"@, ".pdf"@, ".zip"@, ".gz"@, ".tar"@, ".bz2"@,
        ".xz"@, ".7z"@, ".rar"@, ".exe"@, ".dll"@, ".so"@, ".dylib"@, ".o"@, ".a"@,
        ".class"@, ".pyc"@, ".pyo"@, ".wasm"@, ".lock"@,
    ]
}

/// `str::ends_with`.
pub open spec fn ends_with(s: Seq<char>, p: Seq<char>) -> bool {
    p.len() <= s.len() && s.skip(s.len() - p.len()) == p
}

pub(crate) fn ends_with_exec(s: &[char], p: &[char]) -> (r: bool)
    ensures
        r == ends_with(s@, p@),
{
    if p.len() > s.len() {
        return false;
    }
    let t = slice_of(s, s.len() - p.len(), s.len());
    assert(t@ =~= s@.skip(s@.len() - p@.len()));
    crate::text::eq_exec(t.as_slice(), p)
}

/// Whether the lower-cased path ends with one of `binary_exts`.
pub open spec fn binary_path(path: Seq<char>) -> bool {
    exists|i: int| 0 <= i < binary_exts().len() && ends_with(lower_text(path), #[trigger] binary_exts()[i])
}

fn binary_ext_list() -> (r: Vec<&'static str>)
    ensures
        r@.map_values(|s: &'static str| s@) == binary_exts(),
{
    let v: Vec<&'static str> = vec![
        ".png", ".jpg", ".jpeg", ".gif", ".bmp", ".webp", ".ico", ".svg", ".woff", ".woff2",
        ".ttf", ".otf", ".eot", ".pdf", ".zip", ".gz", ".tar", ".bz2", ".xz", ".7z", ".rar",
        ".exe", ".dll", ".so", ".dylib", ".o", ".a", ".class", ".pyc", ".pyo", ".wasm", ".lock",
    ];
    assert(v@.map_values(|s: &'static str| s@) =~= binary_exts());
    v
}

/// Check if a file extension suggests a binary/non-text file.
pub fn is_binary_extension(path: &str) -> (r: bool)
    ensures
        r == binary_path(path@),
{
    let exts = binary_ext_list();
    let ghost ev = exts@.map_values(|s: &'static str| s@);
    let lower = to_lower(path);
    let lv = chars_of(lower.as_str());
    let mut i: usize = 0;
    while i < exts.len()
        invariant
            i <= exts@.len(),
            ev == exts@.map_values(|s: &'static str| s@),
            ev == binary_exts(),
            lv@ == lower_text(path@),
            forall|j: int| 0 <= j < i ==> !ends_with(lv@, #[trigger] ev[j]),
        decreases exts@.len() - i,
    {
        assert(exts@[i as int]@ == ev[i as int]);
        if ends_with_exec(lv.as_slice(), chars_of(exts[i]).as_slice()) {
            return true;
        }
        i += 1;
    }
    false
}

/// A text cut to `max` characters, with `…` when it was longer.
pub open spec fn truncated(s: Seq<char>, max: nat) -> Seq<char> {
    if s.len() <= max {
        s
    } else {
        s.take(max as int) + "…"@
    }
}

/// Truncate a text to `max` characters, appending `…` when it was longer.
pub fn truncate_with_ellipsis(s: &str, max: usize) -> (r: String)
    ensures
        r@ == truncated(s@, max as nat),
{
    let v = chars_of(s);
    if v.len() <= max {
        return string_of(v.as_slice());
    }
    let mut t = slice_of(v.as_slice(), 0, max);
    assert(t@ =~= v@.take(max as int));
    push_str(&mut t, "…");
    string_of(t.as_slice())
}

/// The first of the lines from index `i` on that is not blank, trimmed.
pub open spec fn first_meaningful(ls: Seq<Seq<char>>, i: int) -> Option<Seq<char>>
    decreases ls.len() - i,
{
    if i < 0 || i >= ls.len() {
        None
    } else if trim(ls[i]).len() > 0 {
        Some(trim(ls[i]))
    } else {
        first_meaningful(ls, i + 1)
    }
}

/// The summary `/index` shows for a file: its first non-blank line,
/// trimmed and cut to 80 characters (nothing for a blank file).
pub open spec fn meaningful_line(content: Seq<char>) -> Seq<char> {
    match first_meaningful(lines(content), 0) {
        Some(l) => truncated(l, 80),
        None => seq![],
    }
}

/// Extract the first meaningful line from file content.
pub fn extract_first_meaningful_line(content: &str) -> (r: String)
    ensures
        r@ == meaningful_line(content@),
{
    let ls = lines_exec(chars_of(content).as_slice());
    let ghost lv = ls.deep_view();
    let mut i: usize = 0;
    while i < ls.len()
        invariant
            i <= ls@.len(),
            lv == ls.deep_view(),
            lv == lines(content@),
            first_meaningful(lv, 0) == first_meaningful(lv, i as int),
        decreases ls@.len() - i,
    {
        assert(ls@[i as int]@ == lv[i as int]);
        let t = trim_vec(ls[i].as_slice());
        if t.len() > 0 {
            return truncate_with_ellipsis(string_of(t.as_slice()).as_str(), 80);
        }
        i += 1;
    }
    let e: Vec<char> = Vec::new();
    string_of(e.as_slice())
}

/// An entry in the project index: path, line count, and first meaningful line.
#[derive(Debug, Clone)]
pub struct IndexEntry {
    pub path: String,
    pub lines: usize,
    pub summary: String,
}

pub struct IndexEntryV {
    pub path: Seq<char>,
    pub lines: nat,
    pub summary: Seq<char>,
}

impl View for IndexEntry {
    type V = IndexEntryV;

    open spec fn view(&self) -> IndexEntryV {
        IndexEntryV { path: self.path@, lines: self.lines as nat, summary: self.summary@ }
    }
}

pub open spec fn entries_view(v: Seq<IndexEntry>) -> Seq<IndexEntryV> {
    v.map_values(|e: IndexEntry| e@)
}

/// The index entry of a file: its path, line count and summary.
pub fn index_entry(path: &str, content: &str) -> (r: IndexEntry)
    ensures
        r@ == (IndexEntryV {
            path: path@,
            lines: lines(content@).len(),
            summary: meaningful_line(content@),
        }),
{
    let ls = lines_exec(chars_of(content).as_slice());
    assert(ls.deep_view().len() == ls@.len());
    IndexEntry {
        path: string_of(chars_of(path).as_slice()),
        lines: ls.len(),
        summary: extract_first_meaningful_line(content),
    }
}

/// A text padded with spaces on the right to `w` characters (`{:<w}`).
pub open spec fn pad_right(s: Seq<char>, w: nat) -> Seq<char> {
    if s.len() < w {
        s + repeat(' ', (w - s.len()) as nat)
    } else {
        s
    }
}

/// A text padded with spaces on the left to `w` characters (`{:>w}`).
pub open spec fn pad_left(s: Seq<char>, w: nat) -> Seq<char> {
    if s.len() < w {
        repeat(' ', (w - s.len()) as nat) + s
    } else {
        s
    }
}

pub(crate) fn push_pad_right(out: &mut Vec<char>, s: &[char], w: usize)
    ensures
        final(out)@ == old(out)@ + pad_right(s@, w as nat),
{
    push_all(out, s);
    if s.len() < w {
        push_repeat(out, ' ', w - s.len());
    }
}

pub(crate) fn push_pad_left(out: &mut Vec<char>, s: &[char], w: usize)
    ensures
        final(out)@ == old(out)@ + pad_left(s@, w as nat),
{
    if s.len() < w {
        push_repeat(out, ' ', w - s.len());
    }
    push_all(out, s);
}

/// The widest path (in bytes) among the entries.
pub open spec fn max_path_bytes(v: Seq<IndexEntryV>) -> nat
    decreases v.len(),
{
    if v.len() == 0 {
        0
    } else {
        let m = max_path_bytes(v.drop_last());
        if byte_len(v.last().path) > m {
            byte_len(v.last().path)
        } else {
            m
        }
    }
}

/// The sum of the entries' line counts.
pub open spec fn total_lines(v: Seq<IndexEntryV>) -> nat
    decreases v.len(),
{
    if v.len() == 0 {
        0
    } else {
        total_lines(v.drop_last()) + v.last().lines
    }
}

/// A path as the index shows it: when longer than 50 bytes, `…` and its
/// last 49 bytes.
pub open spec fn path_display(p: Seq<char>) -> Seq<char> {
    if byte_len(p) > 50 {
        "…"@ + p.skip(boundary_index(p, (byte_len(p) - 49) as nat))
    } else {
        p
    }
}

/// One row of the index table, the path column `w` wide.
pub open spec fn index_row(path: Seq<char>, lines_col: Seq<char>, summary: Seq<char>, w: nat) -> Seq<char> {
    "  "@ + pad_right(path, w) + "  "@ + pad_left(lines_col, 5) + "  "@ + summary + "\n"@
}

pub open spec fn index_rows(v: Seq<IndexEntryV>, k: int, w: nat) -> Seq<char>
    decreases k,
{
    if k <= 0 {
        seq![]
    } else {
        index_rows(v, k - 1, w) + index_row(path_display(v[k - 1].path), dec(v[k - 1].lines), v[k - 1].summary, w)
    }
}

/// The index table: a header, a rule, a row per entry (the path column as
/// wide as the widest path, at most 50), and the totals.
pub open spec fn index_text(v: Seq<IndexEntryV>) -> Seq<char> {
    if v.len() == 0 {
        "(no indexable files found)"@
    } else {
        let w: nat = if max_path_bytes(v) < 50 {
            max_path_bytes(v)
        } else {
            50
        };
        index_row("Path"@, "Lines"@, "Summary"@, w) + index_row(repeat('─', w), "─────"@, repeat('─', 40), w)
            + index_rows(v, v.len() as int, w) + "\n  "@ + dec(v.len()) + " file"@ + (if v.len() == 1 {
            seq![]
        } else {
            "s"@
        }) + ", "@ + dec(total_lines(v)) + " total lines\n"@
    }
}

/// Every long path can be cut 49 bytes before its end.
pub open spec fn paths_cuttable(v: Seq<IndexEntryV>) -> bool {
    forall|i: int|
        0 <= i < v.len() && byte_len(#[trigger] v[i].path) > 50 ==> byte_boundary(
            v[i].path,
            (byte_len(v[i].path) - 49) as nat,
        )
}

fn push_row(out: &mut Vec<char>, path: &[char], lines_col: &[char], summary: &[char], w: usize)
    ensures
        final(out)@ == old(out)@ + index_row(path@, lines_col@, summary@, w as nat),
{
    let ghost start = out@;
    push_str(out, "  ");
    push_pad_right(out, path, w);
    push_str(out, "  ");
    push_pad_left(out, lines_col, 5);
    push_str(out, "  ");
    push_all(out, summary);
    push_str(out, "\n");
    assert(out@ =~= start + index_row(path@, lines_col@, summary@, w as nat));
}

fn display_path(p: &str) -> (r: Vec<char>)
    requires
        byte_len(p@) > 50 ==> byte_boundary(p@, (byte_len(p@) - 49) as nat),
    ensures
        r@ == path_display(p@),
{
    let n = str_byte_len(p);
    let v = chars_of(p);
    if n > 50 {
        let k = match boundary_exec(v.as_slice(), n - 49) {
            Some(k) => k,
            None => 0,
        };
        let mut out = chars_of("…");
        let t = slice_of(v.as_slice(), k, v.len());
        assert(t@ =~= v@.skip(k as int));
        push_all(&mut out, t.as_slice());
        out
    } else {
        v
    }
}

/// Format the project index as a table string.
pub fn format_project_index(entries: &Vec<IndexEntry>) -> (r: String)
    requires
        paths_cuttable(entries_view(entries@)),
        total_lines(entries_view(entries@)) <= u64::MAX,
    ensures
        r@ == index_text(entries_view(entries@)),
{
    let ghost v = entries_view(entries@);
    if entries.len() == 0 {
        return string_of(chars_of("(no indexable files found)").as_slice());
    }
    let mut m: usize = 0;
    let mut i: usize = 0;
    while i < entries.len()
        invariant
            i <= entries@.len(),
            v == entries_view(entries@),
            m as nat == max_path_bytes(v.take(i as int)),
        decreases entries@.len() - i,
    {
        assert(v.take(i + 1).drop_last() =~= v.take(i as int));
        let b = str_byte_len(entries[i].path.as_str());
        if b > m {
            m = b;
        }
        i += 1;
    }
    assert(v.take(v.len() as int) =~= v);
    let w: usize = if m < 50 { m } else { 50 };
    let mut out: Vec<char> = Vec::new();
    push_row(&mut out, chars_of("Path").as_slice(), chars_of("Lines").as_slice(), chars_of("Summary").as_slice(), w);
    let mut rule: Vec<char> = Vec::new();
    push_repeat(&mut rule, '─', w);
    let mut rule40: Vec<char> = Vec::new();
    push_repeat(&mut rule40, '─', 40);
    push_row(&mut out, rule.as_slice(), chars_of("─────").as_slice(), rule40.as_slice(), w);
    let ghost head = out@;
    let mut total: u64 = 0;
    let mut k: usize = 0;
    while k < entries.len()
        invariant
            k <= entries@.len(),
            v == entries_view(entries@),
            paths_cuttable(v),
            total_lines(v) <= u64::MAX,
            total as nat == total_lines(v.take(k as int)),
            out@ == head + index_rows(v, k as int, w as nat),
        decreases entries@.len() - k,
    {
        let e = &entries[k];
        assert(e@ == v[k as int]);
        assert(byte_len(v[k as int].path) > 50 ==> byte_boundary(
            v[k as int].path,
            (byte_len(v[k as int].path) - 49) as nat,
        ));
        let pd = display_path(e.path.as_str());
        let mut lc: Vec<char> = Vec::new();
        push_dec(&mut lc, e.lines as u64);
        push_row(&mut out, pd.as_slice(), lc.as_slice(), chars_of(e.summary.as_str()).as_slice(), w);
        assert(out@ =~= head + index_rows(v, k + 1, w as nat));
        assert(v.take(k + 1).drop_last() =~= v.take(k as int));
        proof {
            lemma_total_lines_prefix(v, k + 1);
        }
        total = total + e.lines as u64;
        k += 1;
    }
    assert(v.take(v.len() as int) =~= v);
    push_str(&mut out, "\n  ");
    push_dec(&mut out, entries.len() as u64);
    push_str(&mut out, " file");
    if entries.len() != 1 {
        push_str(&mut out, "s");
    }
    push_str(&mut out, ", ");
    push_dec(&mut out, total);
    push_str(&mut out, " total lines\n");
    assert(out@ =~= index_text(v));
    string_of(out.as_slice())
}

proof fn lemma_total_lines_prefix(v: Seq<IndexEntryV>, k: int)
    requires
        0 <= k <= v.len(),
    ensures
        total_lines(v.take(k)) <= total_lines(v),
    decreases v.len() - k,
{
    if k < v.len() {
        lemma_total_lines_prefix(v, k + 1);
        assert(v.take(k + 1).drop_last() =~= v.take(k));
    } else {
        assert(v.take(k) =~= v);
    }
}

} // verus!
