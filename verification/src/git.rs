//! Git and pull-request helpers: reading `git diff --stat` output, laying it
//! out for display, and reading the arguments of `/pr`.
use vstd::prelude::*;
use crate::style::{DIM, GREEN, RED, RESET};
use crate::text::{
    all_ascii, ascii_lower,
    byte_len, chars_of, dec, eq_ignore_ascii_case, eq_ignore_ascii_case_exec, eq_str, lower_text,
    push_word, split_once_ws, split_once_ws_exec, starts_with, starts_with_exec, to_lower, push_all, push_dec, push_repeat, push_str, repeat, str_byte_len,
    string_of, contains, contains_exec, matches_at, count_char, count_char_exec, find, find_exec, lemma_count_char_bound,
    lines, lines_exec, parse_uint, parse_uint_exec, slice_of, split_char, split_on, trim,
    trim_vec,
};

verus! {

// ───────────────────────── git diff --stat ─────────────────────────

/// A parsed line from `git diff --stat` output.
/// Example: " src/main.rs | 42 +++++++++-------"
#[derive(Debug, Clone)]
pub struct DiffStatEntry {
    pub file: String,
    pub insertions: u32,
    pub deletions: u32,
}

pub struct DiffStatEntryV {
    pub file: Seq<char>,
    pub insertions: u32,
    pub deletions: u32,
}

impl View for DiffStatEntry {
    type V = DiffStatEntryV;

    open spec fn view(&self) -> DiffStatEntryV {
        DiffStatEntryV { file: self.file@, insertions: self.insertions, deletions: self.deletions }
    }
}

/// Summary totals from `git diff --stat` output.
#[derive(Debug, Clone)]
pub struct DiffStatSummary {
    pub entries: Vec<DiffStatEntry>,
    pub total_insertions: u32,
    pub total_deletions: u32,
}

pub struct DiffStatSummaryV {
    pub entries: Seq<DiffStatEntryV>,
    pub total_insertions: u32,
    pub total_deletions: u32,
}

pub open spec fn entries_view(es: Seq<DiffStatEntry>) -> Seq<DiffStatEntryV> {
    es.map_values(|e: DiffStatEntry| e@)
}

impl View for DiffStatSummary {
    type V = DiffStatSummaryV;

    open spec fn view(&self) -> DiffStatSummaryV {
        DiffStatSummaryV {
            entries: entries_view(self.entries@),
            total_insertions: self.total_insertions,
            total_deletions: self.total_deletions,
        }
    }
}

/// A summary line: `N files changed, N insertions(+), N deletions(-)`.
pub open spec fn is_summary_line(t: Seq<char>) -> bool {
    contains(t, "changed"@) && (contains(t, "insertion"@) || contains(t, "deletion"@))
}

/// The count before `word` in a summary line: the last comma-separated
/// field of the text before the first `word`, read as a `u32`.
pub open spec fn summary_count(t: Seq<char>, word: Seq<char>) -> Option<nat> {
    let before = match find(t, word) {
        Some(k) => t.take(k),
        None => t,
    };
    parse_uint(trim(split_on(before, ',').last()), u32::MAX as nat)
}

/// A file line `file | N +++---`: the file before the first `|`, and the
/// `+` and `-` characters of the bar after it.
pub open spec fn stat_entry(t: Seq<char>) -> Option<DiffStatEntryV> {
    match find(t, seq!['|']) {
        None => None,
        Some(p) => {
            let file = trim(t.take(p));
            let bar = trim(t.skip(p + 1));
            if file.len() == 0 {
                None
            } else {
                Some(
                    DiffStatEntryV {
                        file,
                        insertions: count_char(bar, '+') as u32,
                        deletions: count_char(bar, '-') as u32,
                    },
                )
            }
        },
    }
}

/// Reading the lines of `--stat` output: the file entries, and the totals
/// of the last summary line seen (0 before any).
pub open spec fn stat_scan(ls: Seq<Seq<char>>) -> (Seq<DiffStatEntryV>, nat, nat)
    decreases ls.len(),
{
    if ls.len() == 0 {
        (seq![], 0, 0)
    } else {
        let (es, ins, del) = stat_scan(ls.drop_last());
        let t = trim(ls.last());
        if t.len() == 0 {
            (es, ins, del)
        } else if is_summary_line(t) {
            (
                es,
                match summary_count(t, "insertion"@) {
                    Some(n) => n,
                    None => ins,
                },
                match summary_count(t, "deletion"@) {
                    Some(n) => n,
                    None => del,
                },
            )
        } else {
            match stat_entry(t) {
                Some(e) => (es.push(e), ins, del),
                None => (es, ins, del),
            }
        }
    }
}

/// The insertions of all entries.
pub open spec fn sum_insertions(es: Seq<DiffStatEntryV>) -> nat
    decreases es.len(),
{
    if es.len() == 0 {
        0
    } else {
        sum_insertions(es.drop_last()) + es.last().insertions as nat
    }
}

/// The deletions of all entries.
pub open spec fn sum_deletions(es: Seq<DiffStatEntryV>) -> nat
    decreases es.len(),
{
    if es.len() == 0 {
        0
    } else {
        sum_deletions(es.drop_last()) + es.last().deletions as nat
    }
}

/// Adding up the entries (done when no summary line gave a total) stays
/// within `u32`.
pub open spec fn diff_stat_fits(s: Seq<char>) -> bool {
    let (es, ins, del) = stat_scan(lines(s));
    (ins == 0 && del == 0) ==> (sum_insertions(es) <= u32::MAX && sum_deletions(es) <= u32::MAX)
}

/// What `parse_diff_stat(s)` returns: the file entries, and the totals of the
/// summary line, or, when it gave none (or zeros), the sums over the entries.
pub open spec fn diff_stat(s: Seq<char>) -> DiffStatSummaryV {
    let (es, ins, del) = stat_scan(lines(s));
    if ins == 0 && del == 0 {
        DiffStatSummaryV {
            entries: es,
            total_insertions: sum_insertions(es) as u32,
            total_deletions: sum_deletions(es) as u32,
        }
    } else {
        DiffStatSummaryV { entries: es, total_insertions: #[verifier::truncate] (ins as u32), total_deletions: del as u32 }
    }
}

fn summary_count_exec(t: &[char], word: &str) -> (r: Option<u32>)
    ensures
        match r {
            Some(n) => summary_count(t@, word@) == Some(n as nat),
            None => summary_count(t@, word@) is None,
        },
{
    let wv = crate::text::chars_of(word);
    proof {
        crate::text::lemma_find_from(t@, word@, 0);
    }
    let before = match find_exec(t, wv.as_slice()) {
        Some(k) => slice_of(t, 0, k),
        None => slice_of(t, 0, t.len()),
    };
    assert(before@ =~= match find(t@, word@) {
        Some(k) => t@.take(k),
        None => t@,
    });
    let pieces = split_char(before.as_slice(), ',');
    let last = &pieces[pieces.len() - 1];
    assert(last@ == split_on(before@, ',').last());
    let tt = trim_vec(last.as_slice());
    match parse_uint_exec(tt.as_slice(), u32::MAX as u64) {
        Some(n) => Some(n as u32),
        None => None,
    }
}

fn stat_entry_exec(t: &[char]) -> (r: Option<DiffStatEntry>)
    ensures
        match r {
            Some(e) => stat_entry(t@) == Some(e@),
            None => stat_entry(t@) is None,
        },
{
    let bar_char = ['|'];
    assert(seq!['|'] =~= bar_char@);
    match find_exec(t, &bar_char) {
        None => {
            assert(seq!['|'] =~= ['|']@);
            None
        },
        Some(p) => {
            assert(seq!['|'] =~= ['|']@);
            proof {
                crate::text::lemma_find_from(t@, seq!['|'], 0);
            }
            assert(matches_at(t@, seq!['|'], p as int));
            assert(seq!['|'].len() == 1);
            assert(p < t@.len());
            let head = slice_of(t, 0, p);
            let n = t.len();
            let tail = slice_of(t, p + 1, n);
            assert(head@ =~= t@.take(p as int));
            assert(tail@ =~= t@.skip(p + 1));
            let file = trim_vec(head.as_slice());
            let bar = trim_vec(tail.as_slice());
            if file.len() == 0 {
                return None;
            }
            let ins = count_char_exec(bar.as_slice(), '+');
            let del = count_char_exec(bar.as_slice(), '-');
            Some(
                DiffStatEntry {
                    file: crate::text::string_of(file.as_slice()),
                    insertions: #[verifier::truncate] (ins as u32),
                    deletions: #[verifier::truncate] (del as u32),
                },
            )
        },
    }
}

proof fn lemma_sums_step(es: Seq<DiffStatEntryV>, e: DiffStatEntryV)
    ensures
        sum_insertions(es.push(e)) == sum_insertions(es) + e.insertions,
        sum_deletions(es.push(e)) == sum_deletions(es) + e.deletions,
{
    assert(es.push(e).drop_last() =~= es);
}

/// Parse `git diff --stat` output into structured entries.
///
/// Each line looks like:
///   " src/commands.rs | 42 +++++++++-------"
/// The last line is a summary like:
///   " 3 files changed, 25 insertions(+), 10 deletions(-)"
pub fn parse_diff_stat(stat_output: &str) -> (r: DiffStatSummary)
    requires
        diff_stat_fits(stat_output@),
    ensures
        r@ == diff_stat(stat_output@),
{
    let sv = crate::text::chars_of(stat_output);
    let ls = lines_exec(sv.as_slice());
    let ghost lv = ls.deep_view();
    let mut entries: Vec<DiffStatEntry> = Vec::new();
    let mut ins_total: u32 = 0;
    let mut del_total: u32 = 0;
    let mut i: usize = 0;
    assert(lv.take(0) =~= Seq::<Seq<char>>::empty());
    assert(entries_view(entries@) =~= Seq::<DiffStatEntryV>::empty());
    while i < ls.len()
        invariant
            i <= ls@.len(),
            lv == ls.deep_view(),
            lv == lines(stat_output@),
            (entries_view(entries@), ins_total as nat, del_total as nat) == stat_scan(
                lv.take(i as int),
            ),
        decreases ls@.len() - i,
    {
        assert(lv.take(i + 1).drop_last() =~= lv.take(i as int));
        assert(lv.take(i + 1).last() == ls[i as int]@);
        let t = trim_vec(ls[i].as_slice());
        if t.len() == 0 {
        } else if contains_exec(t.as_slice(), &['c', 'h', 'a', 'n', 'g', 'e', 'd']) && (
        contains_exec(t.as_slice(), &['i', 'n', 's', 'e', 'r', 't', 'i', 'o', 'n'])
            || contains_exec(t.as_slice(), &['d', 'e', 'l', 'e', 't', 'i', 'o', 'n'])) {
            proof {
                reveal_strlit("changed");
                reveal_strlit("insertion");
                reveal_strlit("deletion");
            }
            assert(['c', 'h', 'a', 'n', 'g', 'e', 'd']@ =~= "changed"@);
            assert(['i', 'n', 's', 'e', 'r', 't', 'i', 'o', 'n']@ =~= "insertion"@);
            assert(['d', 'e', 'l', 'e', 't', 'i', 'o', 'n']@ =~= "deletion"@);
            if let Some(n) = summary_count_exec(t.as_slice(), "insertion") {
                ins_total = n;
            }
            if let Some(n) = summary_count_exec(t.as_slice(), "deletion") {
                del_total = n;
            }
        } else {
            proof {
                reveal_strlit("changed");
                reveal_strlit("insertion");
                reveal_strlit("deletion");
            }
            assert(['c', 'h', 'a', 'n', 'g', 'e', 'd']@ =~= "changed"@);
            assert(['i', 'n', 's', 'e', 'r', 't', 'i', 'o', 'n']@ =~= "insertion"@);
            assert(['d', 'e', 'l', 'e', 't', 'i', 'o', 'n']@ =~= "deletion"@);
            if let Some(e) = stat_entry_exec(t.as_slice()) {
                let ghost before = entries_view(entries@);
                let ghost ev = e@;
                entries.push(e);
                assert(entries_view(entries@) =~= before.push(ev));
            }
        }
        i += 1;
    }
    assert(lv.take(ls@.len() as int) =~= lv);
    if ins_total == 0 && del_total == 0 {
        let mut si: u32 = 0;
        let mut sd: u32 = 0;
        let mut k: usize = 0;
        let ghost ev = entries_view(entries@);
        proof {
            lemma_sum_prefix_bounds(ev);
        }
        assert(ev.take(0) =~= Seq::<DiffStatEntryV>::empty());
        while k < entries.len()
            invariant
                k <= entries@.len(),
                ev == entries_view(entries@),
                si as nat == sum_insertions(ev.take(k as int)),
                sd as nat == sum_deletions(ev.take(k as int)),
                sum_insertions(ev) <= u32::MAX,
                sum_deletions(ev) <= u32::MAX,
                forall|j: int|
                    0 <= j <= ev.len() ==> sum_insertions(#[trigger] ev.take(j)) <= sum_insertions(ev)
                        && sum_deletions(ev.take(j)) <= sum_deletions(ev),
            decreases entries@.len() - k,
        {
            assert(ev.take(k + 1) =~= ev.take(k as int).push(ev[k as int]));
            proof {
                lemma_sums_step(ev.take(k as int), ev[k as int]);
            }
            assert(ev.take(k + 1).len() == k + 1);
            si = si + entries[k].insertions;
            sd = sd + entries[k].deletions;
            k += 1;
        }
        assert(ev.take(entries@.len() as int) =~= ev);
        ins_total = si;
        del_total = sd;
    }
    DiffStatSummary { entries, total_insertions: ins_total, total_deletions: del_total }
}

proof fn lemma_sum_prefix_bounds(es: Seq<DiffStatEntryV>)
    ensures
        forall|j: int|
            0 <= j <= es.len() ==> sum_insertions(#[trigger] es.take(j)) <= sum_insertions(es)
                && sum_deletions(es.take(j)) <= sum_deletions(es),
    decreases es.len(),
{
    if es.len() > 0 {
        lemma_sum_prefix_bounds(es.drop_last());
        assert forall|j: int| 0 <= j <= es.len() implies sum_insertions(#[trigger] es.take(j))
            <= sum_insertions(es) && sum_deletions(es.take(j)) <= sum_deletions(es) by {
            if j < es.len() {
                assert(es.take(j) =~= es.drop_last().take(j));
            } else {
                assert(es.take(j) =~= es);
            }
        }
    }
}

/// The widest file name, in UTF-8 bytes.
pub open spec fn max_file_width(es: Seq<DiffStatEntryV>) -> nat
    decreases es.len(),
{
    if es.len() == 0 {
        0
    } else {
        let m = max_file_width(es.drop_last());
        let b = byte_len(es.last().file);
        if b > m {
            b
        } else {
            m
        }
    }
}

/// `format!("{:<w$}", s)`: `s` followed by spaces up to `w` characters.
pub open spec fn pad_right(s: Seq<char>, w: nat) -> Seq<char> {
    if s.len() < w {
        s + repeat(' ', (w - s.len()) as nat)
    } else {
        s
    }
}

/// `format!("{:>w$}", s)`: spaces up to `w` characters, then `s`.
pub open spec fn pad_left(s: Seq<char>, w: nat) -> Seq<char> {
    if s.len() < w {
        repeat(' ', (w - s.len()) as nat) + s
    } else {
        s
    }
}

/// `+N` or `-N` in its colour, or nothing for zero.
pub open spec fn signed_count(color: Seq<char>, sign: char, n: u32) -> Seq<char> {
    if n > 0 {
        color + seq![sign] + dec(n as nat) + RESET@
    } else {
        seq![]
    }
}

/// One file of the summary: the name padded to `width`, the number of
/// changed lines right-aligned in four columns, then `+N` and `-N`.
pub open spec fn stat_line(e: DiffStatEntryV, width: nat) -> Seq<char> {
    "    "@ + pad_right(e.file, width) + "  "@ + DIM@ + pad_left(
        dec((e.insertions + e.deletions) as nat),
        4,
    ) + RESET@ + " "@ + signed_count(GREEN@, '+', e.insertions) + (if e.insertions > 0
        && e.deletions > 0 {
        " "@
    } else {
        seq![]
    }) + signed_count(RED@, '-', e.deletions) + "\n"@
}

pub open spec fn stat_lines(es: Seq<DiffStatEntryV>, width: nat) -> Seq<char>
    decreases es.len(),
{
    if es.len() == 0 {
        seq![]
    } else {
        stat_lines(es.drop_last(), width) + stat_line(es.last(), width)
    }
}

/// `, +N` or `, -N` for a non-zero total; nothing for zero.
pub open spec fn total_part(color: Seq<char>, sign: char, n: u32) -> Seq<char> {
    if n > 0 {
        ", "@ + signed_count(color, sign, n)
    } else {
        seq![]
    }
}

/// `N file(s) changed`, dimmed.
pub open spec fn files_changed(n: nat) -> Seq<char> {
    DIM@ + dec(n) + " file"@ + (if n == 1 {
        seq![]
    } else {
        "s"@
    }) + " changed"@ + RESET@
}

/// The closing line of the summary: how many files changed, then the
/// totals that are not zero.
pub open spec fn totals_text(n: nat, ins: u32, del: u32) -> Seq<char> {
    "\n  "@ + files_changed(n) + total_part(GREEN@, '+', ins) + total_part(RED@, '-', del) + "\n"@
}

/// What `format_diff_stat` returns: nothing for no entries; otherwise a
/// header, one line per file, and the count of files with the totals.
pub open spec fn diff_stat_text(s: DiffStatSummaryV) -> Seq<char> {
    let n = s.entries.len();
    if n == 0 {
        seq![]
    } else {
        DIM@ + "  File summary:"@ + RESET@ + "\n"@ + stat_lines(s.entries, max_file_width(s.entries))
            + totals_text(n, s.total_insertions, s.total_deletions)
    }
}

fn push_total_part(out: &mut Vec<char>, color: &str, sign: char, n: u32)
    ensures
        final(out)@ == old(out)@ + total_part(color@, sign, n),
{
    if n > 0 {
        push_str(out, ", ");
        push_signed_count(out, color, sign, n);
        assert(final(out)@ =~= old(out)@ + total_part(color@, sign, n));
    } else {
        assert(final(out)@ =~= old(out)@ + total_part(color@, sign, n));
    }
}

fn push_files_changed(out: &mut Vec<char>, n: usize)
    ensures
        final(out)@ == old(out)@ + files_changed(n as nat),
{
    push_str(out, DIM);
    push_dec(out, n as u64);
    push_str(out, " file");
    if n != 1 {
        push_str(out, "s");
    }
    push_str(out, " changed");
    push_str(out, RESET);
    assert(final(out)@ =~= old(out)@ + files_changed(n as nat));
}

fn push_totals(out: &mut Vec<char>, n: usize, ins: u32, del: u32)
    ensures
        final(out)@ == old(out)@ + totals_text(n as nat, ins, del),
{
    push_str(out, "\n  ");
    push_files_changed(out, n);
    push_total_part(out, GREEN, '+', ins);
    push_total_part(out, RED, '-', del);
    push_str(out, "\n");
    assert(final(out)@ =~= old(out)@ + totals_text(n as nat, ins, del));
}

fn max_width_exec(es: &Vec<DiffStatEntry>) -> (r: usize)
    ensures
        r as nat == max_file_width(entries_view(es@)),
{
    let n = es.len();
    let ghost ev = entries_view(es@);
    let mut width: usize = 0;
    let mut k: usize = 0;
    assert(ev.take(0) =~= Seq::<DiffStatEntryV>::empty());
    while k < n
        invariant
            k <= n,
            n == es@.len(),
            ev == entries_view(es@),
            width as nat == max_file_width(ev.take(k as int)),
        decreases n - k,
    {
        assert(ev.take(k + 1).drop_last() =~= ev.take(k as int));
        assert(ev[k as int] == es[k as int]@);
        let b = str_byte_len(es[k].file.as_str());
        if b > width {
            width = b;
        }
        k += 1;
    }
    assert(ev.take(n as int) =~= ev);
    width
}

/// Adding a file's insertions and deletions stays within `u32`.
pub open spec fn entry_totals_fit(es: Seq<DiffStatEntryV>) -> bool {
    forall|i: int| 0 <= i < es.len() ==> #[trigger] es[i].insertions + es[i].deletions <= u32::MAX
}

fn push_pad_right(out: &mut Vec<char>, s: &[char], w: usize)
    ensures
        final(out)@ == old(out)@ + pad_right(s@, w as nat),
{
    push_all(out, s);
    if s.len() < w {
        push_repeat(out, ' ', w - s.len());
    }
}

fn push_pad_left(out: &mut Vec<char>, s: &[char], w: usize)
    ensures
        final(out)@ == old(out)@ + pad_left(s@, w as nat),
{
    if s.len() < w {
        push_repeat(out, ' ', w - s.len());
    }
    push_all(out, s);
    assert(final(out)@ =~= old(out)@ + pad_left(s@, w as nat));
}

fn push_signed_count(out: &mut Vec<char>, color: &str, sign: char, n: u32)
    ensures
        final(out)@ == old(out)@ + signed_count(color@, sign, n),
{
    if n > 0 {
        push_str(out, color);
        out.push(sign);
        push_dec(out, n as u64);
        push_str(out, RESET);
        assert(final(out)@ =~= old(out)@ + signed_count(color@, sign, n));
    } else {
        assert(final(out)@ =~= old(out)@ + signed_count(color@, sign, n));
    }
}

fn push_stat_line(out: &mut Vec<char>, e: &DiffStatEntry, width: usize)
    requires
        e.insertions + e.deletions <= u32::MAX,
    ensures
        final(out)@ == old(out)@ + stat_line(e@, width as nat),
{
    push_str(out, "    ");
    let fv = chars_of(e.file.as_str());
    push_pad_right(out, fv.as_slice(), width);
    push_str(out, "  ");
    push_str(out, DIM);
    let mut num: Vec<char> = Vec::new();
    push_dec(&mut num, (e.insertions + e.deletions) as u64);
    assert(num@ =~= dec((e.insertions + e.deletions) as nat));
    push_pad_left(out, num.as_slice(), 4);
    push_str(out, RESET);
    push_str(out, " ");
    push_signed_count(out, GREEN, '+', e.insertions);
    if e.insertions > 0 && e.deletions > 0 {
        push_str(out, " ");
    }
    push_signed_count(out, RED, '-', e.deletions);
    push_str(out, "\n");
    assert(final(out)@ =~= old(out)@ + stat_line(e@, width as nat));
}

/// Format a diff stat summary with colors for display.
pub fn format_diff_stat(summary: &DiffStatSummary) -> (r: String)
    requires
        entry_totals_fit(summary@.entries),
    ensures
        r@ == diff_stat_text(summary@),
{
    let n = summary.entries.len();
    let ghost es = summary@.entries;
    if n == 0 {
        return string_of(&[]);
    }
    let width = max_width_exec(&summary.entries);
    let mut out: Vec<char> = Vec::new();
    push_str(&mut out, DIM);
    push_str(&mut out, "  File summary:");
    push_str(&mut out, RESET);
    push_str(&mut out, "\n");
    let ghost head = out@;
    let mut i: usize = 0;
    assert(es.take(0) =~= Seq::<DiffStatEntryV>::empty());
    while i < n
        invariant
            i <= n,
            n == summary.entries@.len(),
            es == summary@.entries,
            entry_totals_fit(es),
            width as nat == max_file_width(es),
            out@ == head + stat_lines(es.take(i as int), width as nat),
        decreases n - i,
    {
        assert(es.take(i + 1).drop_last() =~= es.take(i as int));
        assert(es[i as int] == summary.entries[i as int]@);
        assert(es[i as int].insertions + es[i as int].deletions <= u32::MAX);
        push_stat_line(&mut out, &summary.entries[i], width);
        i += 1;
        assert(out@ =~= head + stat_lines(es.take(i as int), width as nat));
    }
    assert(es.take(n as int) =~= es);
    push_totals(&mut out, n, summary.total_insertions, summary.total_deletions);
    assert(out@ =~= diff_stat_text(summary@));
    string_of(out.as_slice())
}

// ───────────────────────── /diff, /commit ─────────────────────────

/// How a line of `git diff` output is shown.
#[derive(Debug, Clone, Copy, PartialEq, Eq, Structural)]
pub enum DiffLineKind {
    /// An added line (`+`, not the `+++` header): green.
    Added,
    /// A removed line (`-`, not the `---` header): red.
    Removed,
    /// A hunk header (`@@`): cyan.
    Hunk,
    /// A file header (`diff ` or `index `): bold.
    Header,
    /// Anything else: dimmed.
    Context,
}

pub open spec fn diff_line_kind(l: Seq<char>) -> DiffLineKind {
    if starts_with(l, "+"@) && !starts_with(l, "+++"@) {
        DiffLineKind::Added
    } else if starts_with(l, "-"@) && !starts_with(l, "---"@) {
        DiffLineKind::Removed
    } else if starts_with(l, "@@"@) {
        DiffLineKind::Hunk
    } else if starts_with(l, "diff "@) || starts_with(l, "index "@) {
        DiffLineKind::Header
    } else {
        DiffLineKind::Context
    }
}

fn starts_with_str(s: &[char], p: &str) -> (r: bool)
    ensures
        r == starts_with(s@, p@),
{
    let pv = chars_of(p);
    starts_with_exec(s, pv.as_slice())
}

/// Classify a line of the full diff for colouring.
pub fn classify_diff_line(line: &str) -> (r: DiffLineKind)
    ensures
        r == diff_line_kind(line@),
{
    let v = chars_of(line);
    let l = v.as_slice();
    if starts_with_str(l, "+") && !starts_with_str(l, "+++") {
        DiffLineKind::Added
    } else if starts_with_str(l, "-") && !starts_with_str(l, "---") {
        DiffLineKind::Removed
    } else if starts_with_str(l, "@@") {
        DiffLineKind::Hunk
    } else if starts_with_str(l, "diff ") || starts_with_str(l, "index ") {
        DiffLineKind::Header
    } else {
        DiffLineKind::Context
    }
}

/// How a line of `git status --short` is shown.
#[derive(Debug, Clone, Copy, PartialEq, Eq, Structural)]
pub enum StatusKind {
    /// Modified, added or renamed (`M`, `A`, `R`): green.
    Changed,
    /// Deleted (`D`): red.
    Deleted,
    /// Untracked (`?`): yellow.
    Untracked,
    /// Anything else, or a line shorter than two bytes: dimmed.
    Other,
}

pub open spec fn status_kind(t: Seq<char>) -> StatusKind {
    if byte_len(t) >= 2 {
        let c = t[0];
        if c == 'M' || c == 'A' || c == 'R' {
            StatusKind::Changed
        } else if c == 'D' {
            StatusKind::Deleted
        } else if c == '?' {
            StatusKind::Untracked
        } else {
            StatusKind::Other
        }
    } else {
        StatusKind::Other
    }
}

/// Classify a trimmed line of `git status --short` by its status code.
pub fn classify_status_line(trimmed: &str) -> (r: StatusKind)
    ensures
        r == status_kind(trimmed@),
{
    let v = chars_of(trimmed);
    if str_byte_len(trimmed) >= 2 {
        proof {
            crate::text::lemma_byte_len_nonempty(trimmed@);
        }
        let c = v[0];
        if c == 'M' || c == 'A' || c == 'R' {
            StatusKind::Changed
        } else if c == 'D' {
            StatusKind::Deleted
        } else if c == '?' {
            StatusKind::Untracked
        } else {
            StatusKind::Other
        }
    } else {
        StatusKind::Other
    }
}

/// The `--stat` text to summarise: staged and unstaged joined by a newline
/// when both have content, otherwise whichever has content (the unstaged
/// one when neither has).
pub open spec fn combined_stat(staged: Seq<char>, unstaged: Seq<char>) -> Seq<char> {
    if trim(staged).len() > 0 && trim(unstaged).len() > 0 {
        staged + "\n"@ + unstaged
    } else if trim(staged).len() > 0 {
        staged
    } else {
        unstaged
    }
}

/// Combine the staged and unstaged `git diff --stat` outputs.
pub fn combine_stats(staged: &str, unstaged: &str) -> (r: String)
    ensures
        r@ == combined_stat(staged@, unstaged@),
{
    let sv = chars_of(staged);
    let uv = chars_of(unstaged);
    let st = trim_vec(sv.as_slice());
    let ut = trim_vec(uv.as_slice());
    if st.len() > 0 && ut.len() > 0 {
        let mut out = sv;
        push_str(&mut out, "\n");
        push_all(&mut out, uv.as_slice());
        string_of(out.as_slice())
    } else if st.len() > 0 {
        string_of(sv.as_slice())
    } else {
        string_of(uv.as_slice())
    }
}

/// The answer to "commit with this message?".
#[derive(Debug, Clone, Copy, PartialEq, Eq, Structural)]
pub enum CommitReply {
    /// `y`, `yes` or an empty line: commit with the suggested message.
    Accept,
    /// `e` or `edit`: ask for a message.
    Edit,
    /// Anything else: cancel.
    Cancel,
}

pub open spec fn commit_reply_of(response: Seq<char>) -> CommitReply {
    let r = lower_text(trim(response));
    if r == "y"@ || r == "yes"@ || r.len() == 0 {
        CommitReply::Accept
    } else if r == "e"@ || r == "edit"@ {
        CommitReply::Edit
    } else {
        CommitReply::Cancel
    }
}

/// Read the user's answer to the suggested commit message (trimmed, then
/// lower-cased).
pub fn commit_reply(response: &str) -> (r: CommitReply)
    ensures
        r == commit_reply_of(response@),
        all_ascii(response@) ==> ({
            let l = trim(response@).map_values(|c: char| ascii_lower(c));
            r == if l == "y"@ || l == "yes"@ || l.len() == 0 {
                CommitReply::Accept
            } else if l == "e"@ || l == "edit"@ {
                CommitReply::Edit
            } else {
                CommitReply::Cancel
            }
        }),
{
    proof {
        crate::text::lemma_trim_ascii_lower(response@);
    }
    let v = chars_of(response);
    let t = trim_vec(v.as_slice());
    let ts = string_of(t.as_slice());
    let low = to_lower(ts.as_str());
    let lv = chars_of(low.as_str());
    let l = lv.as_slice();
    if eq_str(l, "y") || eq_str(l, "yes") || l.len() == 0 {
        CommitReply::Accept
    } else if eq_str(l, "e") || eq_str(l, "edit") {
        CommitReply::Edit
    } else {
        CommitReply::Cancel
    }
}

// ───────────────────────── /pr ─────────────────────────

/// Represents a parsed `/pr` subcommand.
#[derive(Debug)]
pub enum PrSubcommand {
    List,
    View(u32),
    Diff(u32),
    Comment(u32, String),
    Checkout(u32),
    Create { draft: bool },
    Help,
}

pub enum PrSubcommandV {
    List,
    View(u32),
    Diff(u32),
    Comment(u32, Seq<char>),
    Checkout(u32),
    Create { draft: bool },
    Help,
}

impl View for PrSubcommand {
    type V = PrSubcommandV;

    open spec fn view(&self) -> PrSubcommandV {
        match self {
            PrSubcommand::List => PrSubcommandV::List,
            PrSubcommand::View(n) => PrSubcommandV::View(*n),
            PrSubcommand::Diff(n) => PrSubcommandV::Diff(*n),
            PrSubcommand::Comment(n, t) => PrSubcommandV::Comment(*n, t@),
            PrSubcommand::Checkout(n) => PrSubcommandV::Checkout(*n),
            PrSubcommand::Create { draft } => PrSubcommandV::Create { draft: *draft },
            PrSubcommand::Help => PrSubcommandV::Help,
        }
    }
}

/// `str::splitn(3, char::is_whitespace)`: split at the first two whitespace
/// characters, the third piece keeping the rest.
pub open spec fn splitn3_ws(s: Seq<char>) -> Seq<Seq<char>> {
    match split_once_ws(s) {
        None => seq![s],
        Some((a, rest)) => match split_once_ws(rest) {
            None => seq![a, rest],
            Some((b, c)) => seq![a, b, c],
        },
    }
}

/// `str::trim_start_matches('-')`.
pub open spec fn strip_dashes(s: Seq<char>) -> Seq<char>
    decreases s.len(),
{
    if s.len() > 0 && s[0] == '-' {
        strip_dashes(s.drop_first())
    } else {
        s
    }
}

/// What `parse_pr_args(arg)` returns.
pub open spec fn pr_args(arg: Seq<char>) -> PrSubcommandV {
    let a = trim(arg);
    if a.len() == 0 {
        PrSubcommandV::List
    } else {
        let parts = splitn3_ws(a);
        if eq_ignore_ascii_case(parts[0], "create"@) {
            PrSubcommandV::Create {
                draft: parts.len() > 1 && eq_ignore_ascii_case(strip_dashes(parts[1]), "draft"@),
            }
        } else {
            match parse_uint(parts[0], u32::MAX as nat) {
                None => PrSubcommandV::Help,
                Some(n) => if parts.len() == 1 {
                    PrSubcommandV::View(n as u32)
                } else {
                    let sub = lower_text(parts[1]);
                    if sub == "diff"@ {
                        PrSubcommandV::Diff(n as u32)
                    } else if sub == "checkout"@ {
                        PrSubcommandV::Checkout(n as u32)
                    } else if sub == "comment"@ {
                        let text = if parts.len() == 3 {
                            trim(parts[2])
                        } else {
                            seq![]
                        };
                        if text.len() == 0 {
                            PrSubcommandV::Help
                        } else {
                            PrSubcommandV::Comment(n as u32, text)
                        }
                    } else {
                        PrSubcommandV::Help
                    }
                },
            }
        }
    }
}

fn splitn3_ws_exec(s: &[char]) -> (r: Vec<Vec<char>>)
    ensures
        r.deep_view() == splitn3_ws(s@),
{
    let mut out: Vec<Vec<char>> = Vec::new();
    match split_once_ws_exec(s) {
        None => {
            push_word(&mut out, slice_of(s, 0, s.len()));
            assert(s@.subrange(0, s@.len() as int) =~= s@);
        },
        Some((a, rest)) => match split_once_ws_exec(rest.as_slice()) {
            None => {
                push_word(&mut out, a);
                push_word(&mut out, rest);
            },
            Some((b, c)) => {
                push_word(&mut out, a);
                push_word(&mut out, b);
                push_word(&mut out, c);
            },
        },
    }
    assert(out.deep_view() =~= splitn3_ws(s@));
    out
}

fn strip_dashes_exec(s: &[char]) -> (r: Vec<char>)
    ensures
        r@ == strip_dashes(s@),
{
    let mut i: usize = 0;
    assert(s@.skip(0) =~= s@);
    while i < s.len() && s[i] == '-'
        invariant
            i <= s@.len(),
            strip_dashes(s@) == strip_dashes(s@.skip(i as int)),
        decreases s@.len() - i,
    {
        assert(s@.skip(i as int).drop_first() =~= s@.skip(i + 1));
        i += 1;
    }
    let r = slice_of(s, i, s.len());
    assert(r@ =~= s@.skip(i as int));
    r
}

/// Parse the argument string after `/pr` into a `PrSubcommand`.
pub fn parse_pr_args(arg: &str) -> (r: PrSubcommand)
    ensures
        r@ == pr_args(arg@),
        ({
            let a = trim(arg@);
            let parts = splitn3_ws(a);
            (a.len() > 0 && !eq_ignore_ascii_case(parts[0], "create"@) && parse_uint(parts[0], u32::MAX as nat)
                is Some && parts.len() > 1 && all_ascii(parts[1])) ==> ({
                let n = parse_uint(parts[0], u32::MAX as nat)->0 as u32;
                let w = crate::text::ascii_lowered(parts[1]);
                &&& w == "diff"@ ==> r@ == PrSubcommandV::Diff(n)
                &&& w == "checkout"@ ==> r@ == PrSubcommandV::Checkout(n)
            })
        }),
{
    let v = chars_of(arg);
    let a = trim_vec(v.as_slice());
    if a.len() == 0 {
        return PrSubcommand::List;
    }
    let parts = splitn3_ws_exec(a.as_slice());
    let ghost pv = parts.deep_view();
    assert(pv.len() >= 1);
    assert(parts[0]@ == pv[0]);
    if eq_ignore_ascii_case_exec(parts[0].as_slice(), "create") {
        let draft = if parts.len() > 1 {
            assert(parts[1]@ == pv[1]);
            let d = strip_dashes_exec(parts[1].as_slice());
            eq_ignore_ascii_case_exec(d.as_slice(), "draft")
        } else {
            false
        };
        return PrSubcommand::Create { draft };
    }
    let number = match parse_uint_exec(parts[0].as_slice(), u32::MAX as u64) {
        Some(n) => n as u32,
        None => return PrSubcommand::Help,
    };
    if parts.len() == 1 {
        return PrSubcommand::View(number);
    }
    assert(parts[1]@ == pv[1]);
    let p1 = string_of(parts[1].as_slice());
    let low = to_lower(p1.as_str());
    let lv = chars_of(low.as_str());
    assert(all_ascii(pv[1]) ==> lv@ == crate::text::ascii_lowered(pv[1]));
    assert(number == parse_uint(pv[0], u32::MAX as nat)->0 as u32);
    assert(pv == splitn3_ws(trim(arg@)));
    proof {
        reveal_strlit("diff");
        reveal_strlit("checkout");
    }
    if eq_str(lv.as_slice(), "diff") {
        PrSubcommand::Diff(number)
    } else if eq_str(lv.as_slice(), "checkout") {
        PrSubcommand::Checkout(number)
    } else if eq_str(lv.as_slice(), "comment") {
        let text = if parts.len() == 3 {
            assert(parts[2]@ == pv[2]);
            trim_vec(parts[2].as_slice())
        } else {
            Vec::new()
        };
        if text.len() == 0 {
            PrSubcommand::Help
        } else {
            PrSubcommand::Comment(number, string_of(text.as_slice()))
        }
    } else {
        PrSubcommand::Help
    }
}

/// The arguments of `gh` that create the pull request.
pub open spec fn pr_create_argv(title: Seq<char>, body: Seq<char>, base: Seq<char>, draft: bool) -> Seq<Seq<char>> {
    let a = seq!["pr"@, "create"@, "--title"@, title, "--body"@, body, "--base"@, base];
    if draft {
        a.push("--draft"@)
    } else {
        a
    }
}

/// Build the `gh pr create` arguments for a generated title and body.
pub fn pr_create_args(title: &str, body: &str, base: &str, draft: bool) -> (r: Vec<String>)
    ensures
        r@.map_values(|s: String| s@) == pr_create_argv(title@, body@, base@, draft),
{
    let mut v: Vec<String> = Vec::new();
    v.push(lit("pr"));
    v.push(lit("create"));
    v.push(lit("--title"));
    v.push(lit(title));
    v.push(lit("--body"));
    v.push(lit(body));
    v.push(lit("--base"));
    v.push(lit(base));
    if draft {
        v.push(lit("--draft"));
    }
    assert(v@.map_values(|s: String| s@) =~= pr_create_argv(title@, body@, base@, draft));
    v
}

fn lit(s: &str) -> (r: String)
    ensures
        r@ == s@,
{
    let v = chars_of(s);
    string_of(v.as_slice())
}

/// How many lines of `s` are not empty (the commits of a branch log).
pub open spec fn nonempty_lines(ls: Seq<Seq<char>>) -> nat
    decreases ls.len(),
{
    if ls.len() == 0 {
        0
    } else {
        nonempty_lines(ls.drop_last()) + if ls.last().len() > 0 {
            1nat
        } else {
            0nat
        }
    }
}

proof fn lemma_nonempty_lines_bound(ls: Seq<Seq<char>>)
    ensures
        nonempty_lines(ls) <= ls.len(),
    decreases ls.len(),
{
    if ls.len() > 0 {
        lemma_nonempty_lines_bound(ls.drop_last());
    }
}

/// Count the non-empty lines of a text.
pub fn count_nonempty_lines(s: &str) -> (r: usize)
    ensures
        r == nonempty_lines(lines(s@)),
{
    let v = chars_of(s);
    let ls = lines_exec(v.as_slice());
    let ghost lv = ls.deep_view();
    let mut n: usize = 0;
    let mut i: usize = 0;
    assert(lv.take(0) =~= Seq::<Seq<char>>::empty());
    while i < ls.len()
        invariant
            i <= ls@.len(),
            lv == ls.deep_view(),
            n == nonempty_lines(lv.take(i as int)),
        decreases ls@.len() - i,
    {
        assert(lv.take(i + 1).drop_last() =~= lv.take(i as int));
        assert(lv.take(i + 1).last() == ls[i as int]@);
        proof {
            lemma_nonempty_lines_bound(lv.take(i as int));
        }
        if ls[i].len() > 0 {
            n += 1;
        }
        i += 1;
    }
    assert(lv.take(ls@.len() as int) =~= lv);
    n
}

// ───────────────────────── /pr and /undo output ─────────────────────────

/// The `gh` arguments of a `/pr` subcommand that is one `gh pr` call
/// (none for `create`, which first asks for a description, and for help).
pub open spec fn pr_gh_argv(c: PrSubcommandV) -> Option<Seq<Seq<char>>> {
    match c {
        PrSubcommandV::List => Some(seq!["pr"@, "list"@, "--limit"@, "10"@]),
        PrSubcommandV::View(n) => Some(seq!["pr"@, "view"@, dec(n as nat)]),
        PrSubcommandV::Diff(n) => Some(seq!["pr"@, "diff"@, dec(n as nat)]),
        PrSubcommandV::Comment(n, t) => Some(seq!["pr"@, "comment"@, dec(n as nat), "--body"@, t]),
        PrSubcommandV::Checkout(n) => Some(seq!["pr"@, "checkout"@, dec(n as nat)]),
        _ => None,
    }
}

fn dec_string(n: u32) -> (r: String)
    ensures
        r@ == dec(n as nat),
{
    let mut v: Vec<char> = Vec::new();
    push_dec(&mut v, n as u64);
    string_of(v.as_slice())
}

/// The `gh` arguments of a `/pr` subcommand that is one `gh pr` call.
pub fn pr_gh_args(c: &PrSubcommand) -> (r: Option<Vec<String>>)
    ensures
        match pr_gh_argv(c@) {
            Some(a) => r matches Some(v) && v@.map_values(|s: String| s@) == a,
            None => r is None,
        },
{
    let mut v: Vec<String> = Vec::new();
    match c {
        PrSubcommand::List => {
            v.push(lit("pr"));
            v.push(lit("list"));
            v.push(lit("--limit"));
            v.push(lit("10"));
        },
        PrSubcommand::View(n) => {
            v.push(lit("pr"));
            v.push(lit("view"));
            v.push(dec_string(*n));
        },
        PrSubcommand::Diff(n) => {
            v.push(lit("pr"));
            v.push(lit("diff"));
            v.push(dec_string(*n));
        },
        PrSubcommand::Comment(n, t) => {
            v.push(lit("pr"));
            v.push(lit("comment"));
            v.push(dec_string(*n));
            v.push(lit("--body"));
            v.push(lit(t.as_str()));
        },
        PrSubcommand::Checkout(n) => {
            v.push(lit("pr"));
            v.push(lit("checkout"));
            v.push(dec_string(*n));
        },
        _ => {
            return None;
        },
    }
    assert(v@.map_values(|s: String| s@) =~= pr_gh_argv(c@)->Some_0);
    Some(v)
}

/// What `/pr create` shows about the branch: its name, the base, and the
/// number of commits (`commit` for one, `commits` otherwise).
pub open spec fn pr_branch_line_text(branch: Seq<char>, base: Seq<char>, n: nat) -> Seq<char> {
    DIM@ + "  Branch: "@ + branch + " → "@ + base + " ("@ + dec(n) + " commit"@ + (if n == 1 {
        seq![]
    } else {
        "s"@
    }) + ")"@ + RESET@
}

/// What `/pr create` shows about the branch.
pub fn pr_branch_line(branch: &str, base: &str, commits: usize) -> (r: String)
    ensures
        r@ == pr_branch_line_text(branch@, base@, commits as nat),
{
    let mut out: Vec<char> = Vec::new();
    push_str(&mut out, DIM);
    push_str(&mut out, "  Branch: ");
    push_str(&mut out, branch);
    push_str(&mut out, " → ");
    push_str(&mut out, base);
    push_str(&mut out, " (");
    push_dec(&mut out, commits as u64);
    push_str(&mut out, " commit");
    if commits != 1 {
        push_str(&mut out, "s");
    }
    push_str(&mut out, ")");
    push_str(&mut out, RESET);
    assert(out@ =~= pr_branch_line_text(branch@, base@, commits as nat));
    string_of(out.as_slice())
}

/// Where `/pr create` stands: it reads the branch, then the changes against
/// the base branch, then asks for a description, then runs `gh pr create`.
pub enum PrCreate {
    /// Waiting for the current branch and the base branch.
    Start { draft: bool },
    /// On a feature branch; waiting for the diff and the commit log.
    Branched { draft: bool, branch: String, base: String },
    /// There are changes; waiting for the title and body of the description.
    Described { draft: bool, base: String },
    /// Nothing more to do.
    Finished,
}

/// What the outside world reports to `/pr create`.
pub enum PrCreateEvent {
    /// The current branch (`None`: not in a git repository) and the base branch.
    Branch { branch: Option<String>, base: String },
    /// The diff and the commit log of the branch against its base.
    Changes { diff: String, commits: String },
    /// The title and body read from the generated description (`None`: unreadable).
    Description { parsed: Option<(String, String)> },
}

/// What `/pr create` asks the outside world to do next.
pub enum PrCreateAction {
    /// Read the diff and the commit log against this base branch.
    ReadChanges { base: String },
    /// Show this line about the branch, then generate a description.
    Describe { line: String },
    /// Run `gh` with these arguments; `title` names the pull request when `gh` prints no URL.
    Create { args: Vec<String>, title: String },
    /// Stop: not in a git repository.
    NotInRepo,
    /// Stop: the current branch is the base branch.
    OnBase { base: String },
    /// Stop: nothing differs between the branch and its base.
    NoChanges { branch: String, base: String },
    /// Stop: the description could not be read into a title and a body.
    Unreadable,
    /// The event does not belong to this stage; nothing changes.
    Ignore,
}

/// The step of `/pr create` from `s` on event `e` to state `s2` with action `a`.
pub open spec fn pr_create_next(s: PrCreate, e: PrCreateEvent, s2: PrCreate, a: PrCreateAction) -> bool {
    match (s, e) {
        (PrCreate::Start { draft }, PrCreateEvent::Branch { branch, base }) => match branch {
            None => {
                &&& s2 is Finished
                &&& a is NotInRepo
            },
            Some(b) => if b@ == base@ {
                &&& s2 is Finished
                &&& a matches PrCreateAction::OnBase { base: x }
                &&& x@ == base@
            } else {
                &&& s2 matches PrCreate::Branched { draft: d, branch: b2, base: x }
                &&& d == draft
                &&& b2@ == b@
                &&& x@ == base@
                &&& a matches PrCreateAction::ReadChanges { base: y }
                &&& y@ == base@
            },
        },
        (PrCreate::Branched { draft, branch, base }, PrCreateEvent::Changes { diff, commits }) => if trim(diff@).len()
            == 0 && trim(commits@).len() == 0 {
            &&& s2 is Finished
            &&& a matches PrCreateAction::NoChanges { branch: b, base: x }
            &&& b@ == branch@
            &&& x@ == base@
        } else {
            &&& s2 matches PrCreate::Described { draft: d, base: x }
            &&& d == draft
            &&& x@ == base@
            &&& a matches PrCreateAction::Describe { line }
            &&& line@ == pr_branch_line_text(branch@, base@, nonempty_lines(lines(commits@)))
        },
        (PrCreate::Described { draft, base }, PrCreateEvent::Description { parsed }) => match parsed {
            None => {
                &&& s2 is Finished
                &&& a is Unreadable
            },
            Some((title, body)) => {
                &&& s2 is Finished
                &&& a matches PrCreateAction::Create { args, title: t }
                &&& args@.map_values(|x: String| x@) == pr_create_argv(title@, body@, base@, draft)
                &&& t@ == title@
            },
        },
        _ => {
            &&& s2 == s
            &&& a is Ignore
        },
    }
}

/// One step of `/pr create`.
pub fn pr_create_step(s: PrCreate, e: PrCreateEvent) -> (r: (PrCreate, PrCreateAction))
    ensures
        pr_create_next(s, e, r.0, r.1),
{
    match (s, e) {
        (PrCreate::Start { draft }, PrCreateEvent::Branch { branch, base }) => match branch {
            None => (PrCreate::Finished, PrCreateAction::NotInRepo),
            Some(b) => {
                let bv = chars_of(b.as_str());
                let basev = chars_of(base.as_str());
                if crate::text::eq_exec(bv.as_slice(), basev.as_slice()) {
                    (PrCreate::Finished, PrCreateAction::OnBase { base })
                } else {
                    let base2 = lit(base.as_str());
                    (PrCreate::Branched { draft, branch: b, base }, PrCreateAction::ReadChanges { base: base2 })
                }
            },
        },
        (PrCreate::Branched { draft, branch, base }, PrCreateEvent::Changes { diff, commits }) => {
            let d = trim_vec(chars_of(diff.as_str()).as_slice());
            let c = trim_vec(chars_of(commits.as_str()).as_slice());
            if d.len() == 0 && c.len() == 0 {
                (PrCreate::Finished, PrCreateAction::NoChanges { branch, base })
            } else {
                let n = count_nonempty_lines(commits.as_str());
                let line = pr_branch_line(branch.as_str(), base.as_str(), n);
                (PrCreate::Described { draft, base }, PrCreateAction::Describe { line })
            }
        },
        (PrCreate::Described { draft, base }, PrCreateEvent::Description { parsed }) => match parsed {
            None => (PrCreate::Finished, PrCreateAction::Unreadable),
            Some((title, body)) => {
                let args = pr_create_args(title.as_str(), body.as_str(), base.as_str(), draft);
                (PrCreate::Finished, PrCreateAction::Create { args, title })
            },
        },
        (s, _) => (s, PrCreateAction::Ignore),
    }
}

/// What names a created pull request: the URL `gh` printed, or the title
/// when it printed none.
pub open spec fn pr_created_name(stdout: Seq<char>, title: Seq<char>) -> Seq<char> {
    if trim(stdout).len() == 0 {
        title
    } else {
        trim(stdout)
    }
}

/// What names a created pull request.
pub fn pr_created_label(stdout: &str, title: &str) -> (r: String)
    ensures
        r@ == pr_created_name(stdout@, title@),
{
    let t = trim_vec(chars_of(stdout).as_slice());
    if t.len() == 0 {
        lit(title)
    } else {
        string_of(t.as_slice())
    }
}

pub open spec fn indented_lines(ls: Seq<Seq<char>>, k: int) -> Seq<char>
    decreases k,
{
    if k <= 0 {
        seq![]
    } else {
        indented_lines(ls, k - 1) + "    "@ + ls[k - 1] + "\n"@
    }
}

fn push_indented(out: &mut Vec<char>, text: &str)
    ensures
        final(out)@ == old(out)@ + indented_lines(lines(text@), lines(text@).len() as int),
{
    let ls = lines_exec(chars_of(text).as_slice());
    let ghost lv = ls.deep_view();
    let ghost start = out@;
    let mut i: usize = 0;
    while i < ls.len()
        invariant
            i <= ls@.len(),
            lv == ls.deep_view(),
            lv == lines(text@),
            out@ == start + indented_lines(lv, i as int),
        decreases ls@.len() - i,
    {
        assert(ls@[i as int]@ == lv[i as int]);
        push_str(out, "    ");
        push_all(out, ls[i].as_slice());
        push_str(out, "\n");
        assert(out@ =~= start + indented_lines(lv, i + 1));
        i += 1;
    }
}

/// What `/pr` shows for the open pull requests `gh pr list` printed.
pub open spec fn pr_list_text_of(stdout: Seq<char>) -> Seq<char> {
    if trim(stdout).len() == 0 {
        DIM@ + "  (no open pull requests)"@ + RESET@ + "\n"@
    } else {
        DIM@ + "  Open pull requests:\n"@ + indented_lines(lines(stdout), lines(stdout).len() as int) + RESET@
            + "\n"@
    }
}

/// What `/pr` shows for the open pull requests `gh pr list` printed.
pub fn pr_list_text(stdout: &str) -> (r: String)
    ensures
        r@ == pr_list_text_of(stdout@),
{
    let mut out: Vec<char> = Vec::new();
    push_str(&mut out, DIM);
    if trim_vec(chars_of(stdout).as_slice()).len() == 0 {
        push_str(&mut out, "  (no open pull requests)");
        push_str(&mut out, RESET);
        push_str(&mut out, "\n");
    } else {
        push_str(&mut out, "  Open pull requests:\n");
        push_indented(&mut out, stdout);
        push_str(&mut out, RESET);
        push_str(&mut out, "\n");
    }
    assert(out@ =~= pr_list_text_of(stdout@));
    string_of(out.as_slice())
}

/// What `/undo` finds to revert: whether `git diff --stat` succeeded with
/// some output, and the untracked files `git ls-files` listed.
pub open spec fn undo_plan_of(diff_ok: bool, diff_stat: Seq<char>, untracked: Seq<char>) -> (bool, Seq<Seq<char>>) {
    (diff_ok && trim(diff_stat).len() > 0, lines(untracked))
}

/// What `/undo` finds to revert.
pub fn undo_plan(diff_ok: bool, diff_stat: &str, untracked: &str) -> (r: (bool, Vec<String>))
    ensures
        (r.0, r.1@.map_values(|s: String| s@)) == undo_plan_of(diff_ok, diff_stat@, untracked@),
{
    let has_diff = diff_ok && trim_vec(chars_of(diff_stat).as_slice()).len() > 0;
    let ls = lines_exec(chars_of(untracked).as_slice());
    let ghost lv = ls.deep_view();
    let mut files: Vec<String> = Vec::new();
    let mut i: usize = 0;
    while i < ls.len()
        invariant
            i <= ls@.len(),
            lv == ls.deep_view(),
            files@.map_values(|s: String| s@) == lv.take(i as int),
        decreases ls@.len() - i,
    {
        assert(ls@[i as int]@ == lv[i as int]);
        let ghost before = files@.map_values(|s: String| s@);
        files.push(string_of(ls[i].as_slice()));
        assert(files@.map_values(|s: String| s@) =~= before.push(lv[i as int]));
        assert(lv.take(i + 1) =~= lv.take(i as int).push(lv[i as int]));
        i += 1;
    }
    assert(lv.take(ls@.len() as int) =~= lv);
    (has_diff, files)
}

// ───────────────────────── /review ─────────────────────────

/// How much of the reviewed text the prompt carries, in bytes.
pub const REVIEW_MAX_BYTES: usize = 30_000;

/// The reviewed text as the prompt carries it: whole, or its first 30000
/// bytes and a note of how many more bytes there were.
pub open spec fn review_preview(content: Seq<char>) -> Seq<char> {
    if byte_len(content) > REVIEW_MAX_BYTES {
        content.take(crate::text::boundary_index(content, REVIEW_MAX_BYTES as nat)) + "\n\n... (truncated, "@
            + dec((byte_len(content) - REVIEW_MAX_BYTES) as nat) + " more chars)"@
    } else {
        content
    }
}

/// The code review request for `content`, described as `label`.
pub open spec fn review_prompt_text(label: Seq<char>, content: Seq<char>) -> Seq<char> {
    "Review the following code ("@ + label
        + "). Look for:\n\n1. **Bugs** — logic errors, off-by-one errors, null/None handling, race conditions\n2. **Security** — injection vulnerabilities, unsafe operations, credential exposure\n3. **Style** — naming, idiomatic patterns, unnecessary complexity, dead code\n4. **Performance** — obvious inefficiencies, unnecessary allocations, N+1 patterns\n5. **Suggestions** — improvements, missing error handling, better approaches\n\nBe specific: reference line numbers or code snippets. Be concise — skip things that look fine.\nIf the code looks good overall, say so briefly and note any minor suggestions.\n\n```\n"@
        + review_preview(content) + "\n```"@
}

/// Build the review prompt to send to the AI.
pub fn build_review_prompt(label: &str, content: &str) -> (r: String)
    requires
        byte_len(content@) > REVIEW_MAX_BYTES ==> crate::text::byte_boundary(content@, REVIEW_MAX_BYTES as nat),
    ensures
        r@ == review_prompt_text(label@, content@),
{
    let cv = chars_of(content);
    let total = str_byte_len(content);
    let mut out = chars_of("Review the following code (");
    push_str(&mut out, label);
    push_str(
        &mut out,
        "). Look for:\n\n1. **Bugs** — logic errors, off-by-one errors, null/None handling, race conditions\n2. **Security** — injection vulnerabilities, unsafe operations, credential exposure\n3. **Style** — naming, idiomatic patterns, unnecessary complexity, dead code\n4. **Performance** — obvious inefficiencies, unnecessary allocations, N+1 patterns\n5. **Suggestions** — improvements, missing error handling, better approaches\n\nBe specific: reference line numbers or code snippets. Be concise — skip things that look fine.\nIf the code looks good overall, say so briefly and note any minor suggestions.\n\n```\n",
    );
    if total > REVIEW_MAX_BYTES {
        let k = match crate::text::boundary_exec(cv.as_slice(), REVIEW_MAX_BYTES) {
            Some(k) => k,
            None => 0,
        };
        let head = slice_of(cv.as_slice(), 0, k);
        assert(head@ =~= cv@.take(k as int));
        push_all(&mut out, head.as_slice());
        push_str(&mut out, "\n\n... (truncated, ");
        push_dec(&mut out, (total - REVIEW_MAX_BYTES) as u64);
        push_str(&mut out, " more chars)");
    } else {
        push_all(&mut out, cv.as_slice());
    }
    push_str(&mut out, "\n```");
    assert(out@ =~= review_prompt_text(label@, content@));
    string_of(out.as_slice())
}

/// What `/review` without a file reviews.
#[derive(Debug, Clone, PartialEq, Eq)]
pub enum ReviewPick {
    /// Not in a git repository.
    NotRepo,
    /// Nothing staged or unstaged.
    Nothing,
    /// The staged changes (the diff).
    Staged(String),
    /// The unstaged changes, when nothing is staged (the diff).
    Unstaged(String),
}

pub enum ReviewPickV {
    NotRepo,
    Nothing,
    Staged(Seq<char>),
    Unstaged(Seq<char>),
}

impl View for ReviewPick {
    type V = ReviewPickV;

    open spec fn view(&self) -> ReviewPickV {
        match self {
            ReviewPick::NotRepo => ReviewPickV::NotRepo,
            ReviewPick::Nothing => ReviewPickV::Nothing,
            ReviewPick::Staged(d) => ReviewPickV::Staged(d@),
            ReviewPick::Unstaged(d) => ReviewPickV::Unstaged(d@),
        }
    }
}

/// What `/review` reviews given the staged diff (`None` outside a
/// repository) and the unstaged diff.
pub open spec fn review_pick_of(staged: Option<Seq<char>>, unstaged: Seq<char>) -> ReviewPickV {
    match staged {
        None => ReviewPickV::NotRepo,
        Some(d) => if trim(d).len() > 0 {
            ReviewPickV::Staged(d)
        } else if trim(unstaged).len() > 0 {
            ReviewPickV::Unstaged(unstaged)
        } else {
            ReviewPickV::Nothing
        },
    }
}

/// Choose what `/review` reviews: the staged changes, else the unstaged.
pub fn review_pick(staged: Option<&str>, unstaged: &str) -> (r: ReviewPick)
    ensures
        r@ == review_pick_of(
            match staged {
                Some(d) => Some(d@),
                None => None,
            },
            unstaged@,
        ),
{
    match staged {
        None => ReviewPick::NotRepo,
        Some(d) => {
            if trim_vec(chars_of(d).as_slice()).len() > 0 {
                ReviewPick::Staged(lit(d))
            } else if trim_vec(chars_of(unstaged).as_slice()).len() > 0 {
                ReviewPick::Unstaged(lit(unstaged))
            } else {
                ReviewPick::Nothing
            }
        },
    }
}

} // verus!
