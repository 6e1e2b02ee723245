//! `/jsearch`: one keyword searched across the reporter's saved data files,
//! with a preview of the first matching line of each file that matches.
use vstd::prelude::*;
use crate::order::{key_order, keys_view, order_by_key};
use crate::style::{BOLD, DIM, GREEN, RESET};
use crate::text::{
    byte_len, byte_len_exceeds, chars_of, contains, contains_exec, dec, floor_chars,
    floor_chars_exec, lines, lines_exec, lower_text, push_all, push_dec, push_str, slice_of,
    string_of, to_lower, trim, trim_vec, all_ascii, ascii_lower, lemma_trim_ascii_lower,
};

verus! {

/// What `/jsearch` searches under `.journalist/`: the path, the category it
/// is shown under, and the file extension searched for in a directory.
pub const JSEARCH_TARGETS: [(&'static str, &'static str, &'static str); 8] = [
    ("research", "리서치", "md"),
    ("notes", "취재노트", "jsonl"),
    ("drafts", "초안", "md"),
    ("contacts", "접촉기록", "jsonl"),
    ("archive", "아카이브", "json"),
    ("sources.json", "취재원", "json"),
    ("quotes.json", "인용", "json"),
    ("corrections/corrections.jsonl", "정정기록", "jsonl"),
];

/// Search result entry for `/jsearch`.
#[derive(Debug, Clone)]
pub struct JSearchResult {
    pub category: String,
    pub file: String,
    pub preview: String,
}

pub struct JSearchResultV {
    pub category: Seq<char>,
    pub file: Seq<char>,
    pub preview: Seq<char>,
}

impl View for JSearchResult {
    type V = JSearchResultV;

    open spec fn view(&self) -> JSearchResultV {
        JSearchResultV { category: self.category@, file: self.file@, preview: self.preview@ }
    }
}

pub open spec fn results_view(v: Seq<JSearchResult>) -> Seq<JSearchResultV> {
    v.map_values(|r: JSearchResult| r@)
}

/// A data file to search: the category it belongs to, its file name and
/// its text.
#[derive(Debug, Clone)]
pub struct JSearchFile {
    pub category: String,
    pub name: String,
    pub content: String,
}

/// The keyword as it is matched: trimmed and lower-cased.
pub open spec fn search_key(keyword: Seq<char>) -> Seq<char> {
    lower_text(trim(keyword))
}

/// The first of the lines from index `i` on whose lower-cased text contains `kw`.
pub open spec fn first_hit_line(ls: Seq<Seq<char>>, kw: Seq<char>, i: int) -> Option<Seq<char>>
    decreases ls.len() - i,
{
    if i < 0 || i >= ls.len() {
        None
    } else if contains(lower_text(ls[i]), kw) {
        Some(ls[i])
    } else {
        first_hit_line(ls, kw, i + 1)
    }
}

/// A matching line as previewed: trimmed, and cut at the last character
/// boundary within 80 bytes (with `…`) when longer.
pub open spec fn preview_line(l: Seq<char>) -> Seq<char> {
    let t = trim(l);
    if byte_len(t) > 80 {
        t.take(floor_chars(t, 80) as int) + "…"@
    } else {
        t
    }
}

/// The preview of a file whose name or text contains `kw` (after
/// lower-casing): its first matching line, or a note that only the name
/// matched; `None` when neither matches.
pub open spec fn file_preview(filename: Seq<char>, content: Seq<char>, kw: Seq<char>) -> Option<Seq<char>> {
    if !contains(lower_text(filename), kw) && !contains(lower_text(content), kw) {
        None
    } else {
        Some(
            match first_hit_line(lines(content), kw, 0) {
                Some(l) => preview_line(l),
                None => "(파일명 매칭: "@ + filename + ")"@,
            },
        )
    }
}

fn line_has(line: &[char], kw: &[char]) -> (r: bool)
    ensures
        r == contains(lower_text(line@), kw@),
{
    let t = string_of(line);
    let low = to_lower(t.as_str());
    let lowv = chars_of(low.as_str());
    contains_exec(lowv.as_slice(), kw)
}

fn first_hit_preview(ls: &Vec<Vec<char>>, kw: &[char]) -> (r: Option<Vec<char>>)
    ensures
        match first_hit_line(ls.deep_view(), kw@, 0) {
            Some(l) => r matches Some(p) && p@ == preview_line(l),
            None => r is None,
        },
{
    let ghost lv = ls.deep_view();
    let mut i: usize = 0;
    while i < ls.len()
        invariant
            i <= ls@.len(),
            lv == ls.deep_view(),
            first_hit_line(lv, kw@, 0) == first_hit_line(lv, kw@, i as int),
        decreases ls@.len() - i,
    {
        assert(ls[i as int]@ == lv[i as int]);
        if line_has(ls[i].as_slice(), kw) {
            return Some(preview_of(ls[i].as_slice()));
        }
        i += 1;
    }
    None
}

fn preview_of(l: &[char]) -> (r: Vec<char>)
    ensures
        r@ == preview_line(l@),
{
    let t = trim_vec(l);
    if byte_len_exceeds(t.as_slice(), 80) {
        let k = floor_chars_exec(t.as_slice(), 80);
        let mut out = slice_of(t.as_slice(), 0, k);
        assert(out@ =~= t@.take(k as int));
        push_str(&mut out, "…");
        out
    } else {
        t
    }
}

/// Search a single file for keyword matches (filename + content): a match
/// adds one result with the file's name and preview. `kw` is the keyword
/// already trimmed and lower-cased.
pub fn search_file(filename: &str, content: &str, kw: &str, category: &str, results: &mut Vec<JSearchResult>)
    ensures
        results_view(final(results)@) == match file_preview(filename@, content@, kw@) {
            Some(p) => results_view(old(results)@).push(
                JSearchResultV { category: category@, file: filename@, preview: p },
            ),
            None => results_view(old(results)@),
        },
        all_ascii(content@) && contains(content@.map_values(|c: char| ascii_lower(c)), kw@) ==> file_preview(
            filename@,
            content@,
            kw@,
        ) is Some,
        all_ascii(filename@) && contains(filename@.map_values(|c: char| ascii_lower(c)), kw@) ==> file_preview(
            filename@,
            content@,
            kw@,
        ) is Some,
{
    let kv = chars_of(kw);
    let fl = to_lower(filename);
    let cl = to_lower(content);
    let flv = chars_of(fl.as_str());
    let clv = chars_of(cl.as_str());
    if !contains_exec(flv.as_slice(), kv.as_slice()) && !contains_exec(clv.as_slice(), kv.as_slice()) {
        return;
    }
    let cv = chars_of(content);
    let ls = lines_exec(cv.as_slice());
    let found = first_hit_preview(&ls, kv.as_slice());
    let preview = match found {
        Some(p) => p,
        None => {
            let mut p = chars_of("(파일명 매칭: ");
            push_str(&mut p, filename);
            push_str(&mut p, ")");
            p
        },
    };
    assert(file_preview(filename@, content@, kw@) == Some(preview@));
    let ghost before = results_view(results@);
    let r = JSearchResult {
        category: string_of(chars_of(category).as_slice()),
        file: string_of(chars_of(filename).as_slice()),
        preview: string_of(preview.as_slice()),
    };
    results.push(r);
    assert(results_view(results@) =~= before.push(r@));
}

pub struct JSearchFileV {
    pub category: Seq<char>,
    pub name: Seq<char>,
    pub content: Seq<char>,
}

impl View for JSearchFile {
    type V = JSearchFileV;

    open spec fn view(&self) -> JSearchFileV {
        JSearchFileV { category: self.category@, name: self.name@, content: self.content@ }
    }
}

pub open spec fn files_view(v: Seq<JSearchFile>) -> Seq<JSearchFileV> {
    v.map_values(|f: JSearchFile| f@)
}

/// The results for the first `n` files, in order.
pub open spec fn search_hits(fs: Seq<JSearchFileV>, kw: Seq<char>, n: int) -> Seq<JSearchResultV>
    decreases n,
{
    if n <= 0 {
        seq![]
    } else {
        let f = fs[n - 1];
        match file_preview(f.name, f.content, kw) {
            Some(p) => search_hits(fs, kw, n - 1).push(
                JSearchResultV { category: f.category, file: f.name, preview: p },
            ),
            None => search_hits(fs, kw, n - 1),
        }
    }
}

/// The place of a category in `JSEARCH_TARGETS` (8 for any other).
pub open spec fn category_rank(c: Seq<char>) -> int {
    if c == "리서치"@ {
        0
    } else if c == "취재노트"@ {
        1
    } else if c == "초안"@ {
        2
    } else if c == "접촉기록"@ {
        3
    } else if c == "아카이브"@ {
        4
    } else if c == "취재원"@ {
        5
    } else if c == "인용"@ {
        6
    } else if c == "정정기록"@ {
        7
    } else {
        8
    }
}

/// The files come in the order of their categories in `JSEARCH_TARGETS`.
pub open spec fn files_ranked(fs: Seq<JSearchFileV>) -> bool {
    forall|a: int, b: int| 0 <= a < b < fs.len() ==> category_rank(#[trigger] fs[a].category) <= category_rank(#[trigger] fs[b].category)
}

/// The results come grouped by category, in the order of `JSEARCH_TARGETS`.
pub open spec fn results_ranked(v: Seq<JSearchResultV>) -> bool {
    forall|a: int, b: int| 0 <= a < b < v.len() ==> category_rank(#[trigger] v[a].category) <= category_rank(#[trigger] v[b].category)
}

proof fn lemma_hits_ranked(fs: Seq<JSearchFileV>, kw: Seq<char>, n: int)
    requires
        files_ranked(fs),
        0 <= n <= fs.len(),
    ensures
        results_ranked(search_hits(fs, kw, n)),
        forall|a: int| 0 <= a < search_hits(fs, kw, n).len() ==> exists|m: int| 0 <= m < n && (#[trigger] search_hits(fs, kw, n)[a]).category == fs[m].category,
    decreases n,
{
    if n > 0 {
        lemma_hits_ranked(fs, kw, n - 1);
        let h = search_hits(fs, kw, n - 1);
        let f = fs[n - 1];
        assert forall|a: int| 0 <= a < h.len() implies category_rank(#[trigger] h[a].category) <= category_rank(f.category) by {
            let m = choose|m: int| 0 <= m < n - 1 && h[a].category == fs[m].category;
            assert(category_rank(fs[m].category) <= category_rank(fs[n - 1].category));
        }
        match file_preview(f.name, f.content, kw) {
            Some(p) => {
                let x = JSearchResultV { category: f.category, file: f.name, preview: p };
                let g = h.push(x);
                assert forall|a: int| 0 <= a < g.len() implies exists|m: int| 0 <= m < n && (#[trigger] g[a]).category == fs[m].category by {
                    if a == h.len() {
                        assert(g[a].category == fs[n - 1].category);
                    } else {
                        assert(g[a] == h[a]);
                        let m = choose|m: int| 0 <= m < n - 1 && h[a].category == fs[m].category;
                        assert(g[a].category == fs[m].category);
                    }
                }
                assert forall|a: int, b: int| 0 <= a < b < g.len() implies category_rank(#[trigger] g[a].category) <= category_rank(#[trigger] g[b].category) by {
                    if b == h.len() {
                        assert(g[a] == h[a]);
                    } else {
                        assert(g[a] == h[a]);
                        assert(g[b] == h[b]);
                    }
                }
            },
            None => {
                assert forall|a: int| 0 <= a < h.len() implies exists|m: int| 0 <= m < n && (#[trigger] h[a]).category == fs[m].category by {
                    let m = choose|m: int| 0 <= m < n - 1 && h[a].category == fs[m].category;
                    assert(h[a].category == fs[m].category);
                }
            },
        }
    }
}

/// A file that matches is among the results, under its own name.
proof fn lemma_hits_include(fs: Seq<JSearchFileV>, kw: Seq<char>, n: int, i: int)
    requires
        0 <= i < n <= fs.len(),
        file_preview(fs[i].name, fs[i].content, kw) is Some,
    ensures
        exists|j: int| 0 <= j < search_hits(fs, kw, n).len() && (#[trigger] search_hits(fs, kw, n)[j]).file == fs[i].name,
    decreases n,
{
    if i < n - 1 {
        lemma_hits_include(fs, kw, n - 1, i);
        let j = choose|j: int| 0 <= j < search_hits(fs, kw, n - 1).len() && (#[trigger] search_hits(fs, kw, n - 1)[j]).file == fs[i].name;
        assert(search_hits(fs, kw, n)[j] == search_hits(fs, kw, n - 1)[j]);
    } else {
        let h = search_hits(fs, kw, n);
        assert(h[h.len() - 1].file == fs[i].name);
    }
}

/// The results of searching `fs` for an ASCII keyword `k`: nothing when
/// it is blank, else the files matching it trimmed and with `A`-`Z` lowered.
pub open spec fn ascii_search(k: Seq<char>, fs: Seq<JSearchFileV>) -> Seq<JSearchResultV> {
    if trim(k).len() == 0 {
        seq![]
    } else {
        search_hits(fs, trim(k).map_values(|c: char| ascii_lower(c)), fs.len() as int)
    }
}

/// The search ignores letter case: an ASCII keyword and the same keyword
/// with its capitals lowered (`"GPU"` and `"gpu"`) find the same results,
/// which are those for the lowered keyword.
pub proof fn lemma_jsearch_case_insensitive(k: Seq<char>, fs: Seq<JSearchFileV>)
    requires
        all_ascii(k),
    ensures
        all_ascii(k.map_values(|c: char| ascii_lower(c))),
        ascii_search(k, fs) == ascii_search(k.map_values(|c: char| ascii_lower(c)), fs),
{
    lemma_trim_ascii_lower(k);
}

/// Search the given data files for a keyword (case-insensitive): nothing
/// for a blank keyword, else one result per matching file, in order; so
/// files given in the order of `JSEARCH_TARGETS` give results grouped by
/// category in that order.
pub fn jsearch_in(keyword: &str, files: &Vec<JSearchFile>) -> (r: Vec<JSearchResult>)
    ensures
        results_view(r@) == if search_key(keyword@).len() == 0 {
            seq![]
        } else {
            search_hits(files_view(files@), search_key(keyword@), files@.len() as int)
        },
        trim(keyword@).len() == 0 ==> r@.len() == 0,
        files_ranked(files_view(files@)) ==> results_ranked(results_view(r@)),
        all_ascii(keyword@) ==> results_view(r@) == ascii_search(keyword@, files_view(files@)),
        all_ascii(keyword@) && trim(keyword@).len() > 0 ==> forall|i: int|
            0 <= i < files@.len() && all_ascii(files@[i].content@) && contains(
                (#[trigger] files@[i]).content@.map_values(|c: char| ascii_lower(c)),
                trim(keyword@).map_values(|c: char| ascii_lower(c)),
            ) ==> exists|j: int| 0 <= j < r@.len() && (#[trigger] r@[j]).file@ == files@[i].name@,
{
    proof {
        lemma_trim_ascii_lower(keyword@);
        if files_ranked(files_view(files@)) {
            lemma_hits_ranked(files_view(files@), search_key(keyword@), files@.len() as int);
        }
    }
    let kv = trim_vec(chars_of(keyword).as_slice());
    let kt = string_of(kv.as_slice());
    let kw = to_lower(kt.as_str());
    let mut results: Vec<JSearchResult> = Vec::new();
    assert(results_view(results@) =~= Seq::<JSearchResultV>::empty());
    if chars_of(kw.as_str()).len() == 0 {
        return results;
    }
    let ghost fv = files_view(files@);
    let mut i: usize = 0;
    while i < files.len()
        invariant
            i <= files@.len(),
            fv == files_view(files@),
            kw@ == search_key(keyword@),
            results_view(results@) == search_hits(fv, kw@, i as int),
            forall|m: int|
                0 <= m < i && all_ascii(#[trigger] fv[m].content) && contains(
                    fv[m].content.map_values(|c: char| ascii_lower(c)),
                    kw@,
                ) ==> file_preview(fv[m].name, fv[m].content, kw@) is Some,
        decreases files@.len() - i,
    {
        let f = &files[i];
        search_file(f.name.as_str(), f.content.as_str(), kw.as_str(), f.category.as_str(), &mut results);
        i += 1;
    }
    proof {
        if all_ascii(keyword@) && trim(keyword@).len() > 0 {
            assert forall|m: int|
                0 <= m < files@.len() && all_ascii(files@[m].content@) && contains(
                    (#[trigger] files@[m]).content@.map_values(|c: char| ascii_lower(c)),
                    trim(keyword@).map_values(|c: char| ascii_lower(c)),
                ) implies exists|j: int| 0 <= j < results@.len() && (#[trigger] results@[j]).file@ == files@[m].name@ by {
                assert(fv[m] == files@[m]@);
                lemma_hits_include(fv, kw@, files@.len() as int, m);
                let j = choose|j: int| 0 <= j < search_hits(fv, kw@, files@.len() as int).len() && (#[trigger] search_hits(fv, kw@, files@.len() as int)[j]).file == fv[m].name;
                assert(results_view(results@)[j] == results@[j]@);
            }
        }
    }
    results
}

/// The lines of the report for the first `k` results in the order `r`: a
/// category heading before each new category, then the file and preview.
pub open spec fn report_body(v: Seq<JSearchResultV>, r: Seq<usize>, k: int) -> Seq<char>
    decreases k,
{
    if k <= 0 {
        seq![]
    } else {
        let x = v[r[k - 1] as int];
        report_body(v, r, k - 1) + entry_text(x, k == 1 || v[r[k - 2] as int].category != x.category)
    }
}

/// One result in the report, after its category heading when it opens a group.
pub open spec fn entry_text(x: JSearchResultV, head: bool) -> Seq<char> {
    (if head {
        GREEN@ + "  ["@ + x.category + "]"@ + RESET@ + "\n"@
    } else {
        seq![]
    }) + DIM@ + "    • "@ + x.file + RESET@ + "\n"@ + DIM@ + "      "@ + x.preview + RESET@ + "\n"@
}

fn push_entry(out: &mut Vec<char>, x: &JSearchResult, head: bool)
    ensures
        final(out)@ == old(out)@ + entry_text(x@, head),
{
    let ghost start = out@;
    if head {
        push_str(out, GREEN);
        push_str(out, "  [");
        push_str(out, x.category.as_str());
        push_str(out, "]");
        push_str(out, RESET);
        push_str(out, "\n");
    }
    push_str(out, DIM);
    push_str(out, "    • ");
    push_str(out, x.file.as_str());
    push_str(out, RESET);
    push_str(out, "\n");
    push_str(out, DIM);
    push_str(out, "      ");
    push_str(out, x.preview.as_str());
    push_str(out, RESET);
    push_str(out, "\n");
    assert(out@ =~= start + entry_text(x@, head));
}

/// What `/jsearch <keyword>` prints for a non-empty result list shown in the order `r`.
pub open spec fn report_text(keyword: Seq<char>, v: Seq<JSearchResultV>, r: Seq<usize>) -> Seq<char> {
    BOLD@ + "  🔍 \""@ + keyword + "\" 통합 검색 결과 ("@ + dec(v.len()) + "건)"@ + RESET@ + "\n"@
        + DIM@ + "  ──────────────────────────────"@ + RESET@ + "\n"@ + report_body(v, r, r.len() as int)
        + "\n"@
}

pub open spec fn result_categories(v: Seq<JSearchResultV>) -> Seq<Seq<char>> {
    v.map_values(|x: JSearchResultV| x.category)
}

/// The report of `/jsearch <keyword>`: the results grouped by category (in
/// text order), each group in the order found.
pub fn jsearch_report(keyword: &str, results: &Vec<JSearchResult>) -> (r: String)
    ensures
        exists|order: Seq<usize>|
            key_order(result_categories(results_view(results@)), order) && r@ == report_text(
                keyword@,
                results_view(results@),
                order,
            ),
{
    let ghost v = results_view(results@);
    let mut cats: Vec<String> = Vec::new();
    let mut i: usize = 0;
    while i < results.len()
        invariant
            i <= results@.len(),
            v == results_view(results@),
            cats@.len() == i,
            forall|j: int| 0 <= j < i ==> (#[trigger] cats@[j])@ == v[j].category,
        decreases results@.len() - i,
    {
        cats.push(string_of(chars_of(results[i].category.as_str()).as_slice()));
        i += 1;
    }
    assert(keys_view(cats@) =~= result_categories(v));
    let order = order_by_key(&cats);
    let mut out: Vec<char> = Vec::new();
    push_str(&mut out, BOLD);
    push_str(&mut out, "  🔍 \"");
    push_str(&mut out, keyword);
    push_str(&mut out, "\" 통합 검색 결과 (");
    push_dec(&mut out, results.len() as u64);
    push_str(&mut out, "건)");
    push_str(&mut out, RESET);
    push_str(&mut out, "\n");
    push_str(&mut out, DIM);
    push_str(&mut out, "  ──────────────────────────────");
    push_str(&mut out, RESET);
    push_str(&mut out, "\n");
    let ghost head = out@;
    let mut k: usize = 0;
    while k < order.len()
        invariant
            k <= order@.len(),
            v == results_view(results@),
            key_order(result_categories(v), order@),
            out@ == head + report_body(v, order@, k as int),
        decreases order@.len() - k,
    {
        let x = order[k];
        assert(x < v.len());
        let cv = chars_of(results[x].category.as_str());
        assert(results@[x as int]@ == v[x as int]);
        let new_group = if k == 0 {
            true
        } else {
            let y = order[k - 1];
            assert(y < v.len());
            let pv = chars_of(results[y].category.as_str());
            !crate::text::eq_exec(pv.as_slice(), cv.as_slice())
        };
        push_entry(&mut out, &results[x], new_group);
        assert(out@ =~= head + report_body(v, order@, k + 1));
        k += 1;
    }
    push_str(&mut out, "\n");
    assert(out@ =~= report_text(keyword@, v, order@));
    string_of(out.as_slice())
}

// ───────────────────────── saved research ─────────────────────────

/// A line shown as a preview of saved research: itself, or cut at the last
/// character boundary within 80 bytes (with `…`) when longer.
pub open spec fn cut_line(l: Seq<char>) -> Seq<char> {
    if byte_len(l) > 80 {
        l.take(floor_chars(l, 80) as int) + "…"@
    } else {
        l
    }
}

/// The first line of `ls` from index `i` on that is not blank.
pub open spec fn first_nonblank(ls: Seq<Seq<char>>, i: int) -> Seq<char>
    decreases ls.len() - i,
{
    if i < 0 || i >= ls.len() {
        seq![]
    } else if trim(ls[i]).len() > 0 {
        ls[i]
    } else {
        first_nonblank(ls, i + 1)
    }
}

/// A saved research file found by a search for `kw` (lower-cased): its
/// name, its first non-blank line, and its first line containing `kw`
/// (cut to 80 bytes), or `None` when neither name nor text contains `kw`.
pub open spec fn research_hit(name: Seq<char>, content: Seq<char>, kw: Seq<char>) -> Option<(Seq<char>, Seq<char>, Seq<char>)> {
    if contains(lower_text(name), kw) || contains(lower_text(content), kw) {
        Some(
            (
                name,
                first_nonblank(lines(content), 0),
                match first_hit_line(lines(content), kw, 0) {
                    Some(l) => cut_line(l),
                    None => seq![],
                },
            ),
        )
    } else {
        None
    }
}

pub open spec fn triples_view(v: Seq<(String, String, String)>) -> Seq<(Seq<char>, Seq<char>, Seq<char>)> {
    v.map_values(|t: (String, String, String)| (t.0@, t.1@, t.2@))
}

pub open spec fn pairs_view(v: Seq<(String, String)>) -> Seq<(Seq<char>, Seq<char>)> {
    v.map_values(|t: (String, String)| (t.0@, t.1@))
}

/// The hits among the first `n` files (name, text), in order.
pub open spec fn research_hits(fs: Seq<(Seq<char>, Seq<char>)>, kw: Seq<char>, n: int) -> Seq<(Seq<char>, Seq<char>, Seq<char>)>
    decreases n,
{
    if n <= 0 {
        seq![]
    } else {
        match research_hit(fs[n - 1].0, fs[n - 1].1, kw) {
            Some(h) => research_hits(fs, kw, n - 1).push(h),
            None => research_hits(fs, kw, n - 1),
        }
    }
}

fn first_nonblank_exec(ls: &Vec<Vec<char>>) -> (r: Vec<char>)
    ensures
        r@ == first_nonblank(ls.deep_view(), 0),
{
    let ghost lv = ls.deep_view();
    let mut i: usize = 0;
    while i < ls.len()
        invariant
            i <= ls@.len(),
            lv == ls.deep_view(),
            first_nonblank(lv, 0) == first_nonblank(lv, i as int),
        decreases ls@.len() - i,
    {
        assert(ls@[i as int]@ == lv[i as int]);
        if trim_vec(ls[i].as_slice()).len() > 0 {
            return slice_of(ls[i].as_slice(), 0, ls[i].len());
        }
        i += 1;
    }
    Vec::new()
}

fn cut_line_exec(l: &[char]) -> (r: Vec<char>)
    ensures
        r@ == cut_line(l@),
{
    if byte_len_exceeds(l, 80) {
        let k = floor_chars_exec(l, 80);
        let mut out = slice_of(l, 0, k);
        assert(out@ =~= l@.take(k as int));
        push_str(&mut out, "…");
        out
    } else {
        slice_of(l, 0, l.len())
    }
}

fn first_hit_cut(ls: &Vec<Vec<char>>, kw: &[char]) -> (r: Vec<char>)
    ensures
        r@ == match first_hit_line(ls.deep_view(), kw@, 0) {
            Some(l) => cut_line(l),
            None => seq![],
        },
{
    let ghost lv = ls.deep_view();
    let mut i: usize = 0;
    while i < ls.len()
        invariant
            i <= ls@.len(),
            lv == ls.deep_view(),
            first_hit_line(lv, kw@, 0) == first_hit_line(lv, kw@, i as int),
        decreases ls@.len() - i,
    {
        assert(ls[i as int]@ == lv[i as int]);
        if line_has(ls[i].as_slice(), kw) {
            return cut_line_exec(ls[i].as_slice());
        }
        i += 1;
    }
    Vec::new()
}

fn research_hit_exec(name: &str, content: &str, kw: &[char]) -> (r: Option<(String, String, String)>)
    ensures
        match research_hit(name@, content@, kw@) {
            Some(h) => r matches Some(t) && (t.0@, t.1@, t.2@) == h,
            None => r is None,
        },
{
    let nl = to_lower(name);
    let cl = to_lower(content);
    if !contains_exec(chars_of(nl.as_str()).as_slice(), kw) && !contains_exec(chars_of(cl.as_str()).as_slice(), kw) {
        return None;
    }
    let ls = lines_exec(chars_of(content).as_slice());
    let first = first_nonblank_exec(&ls);
    let preview = first_hit_cut(&ls, kw);
    Some(
        (
            string_of(chars_of(name).as_slice()),
            string_of(first.as_slice()),
            string_of(preview.as_slice()),
        ),
    )
}

/// The file names of search hits.
pub open spec fn hit_names(hits: Seq<(Seq<char>, Seq<char>, Seq<char>)>) -> Seq<Seq<char>> {
    hits.map_values(|h: (Seq<char>, Seq<char>, Seq<char>)| h.0)
}

/// `out` is `hits` ordered by file name, ties in their order.
pub open spec fn sorted_by_name(hits: Seq<(Seq<char>, Seq<char>, Seq<char>)>, out: Seq<(Seq<char>, Seq<char>, Seq<char>)>) -> bool {
    exists|order: Seq<usize>|
        #[trigger] key_order(hit_names(hits), order) && out == order.map_values(|k: usize| hits[k as int])
}

/// Search saved research files (name and text) by keyword, ignoring case:
/// for each match its name, first non-blank line and first matching line,
/// ordered by file name (a blank keyword finds nothing).
pub fn research_search_in(keyword: &str, files: &Vec<(String, String)>) -> (r: Vec<(String, String, String)>)
    ensures
        search_key(keyword@).len() == 0 ==> r@.len() == 0,
        search_key(keyword@).len() > 0 ==> sorted_by_name(
            research_hits(pairs_view(files@), search_key(keyword@), files@.len() as int),
            triples_view(r@),
        ),
        all_ascii(keyword@) && trim(keyword@).len() > 0 ==> sorted_by_name(
            research_hits(
                pairs_view(files@),
                trim(keyword@).map_values(|c: char| ascii_lower(c)),
                files@.len() as int,
            ),
            triples_view(r@),
        ),
{
    proof {
        lemma_trim_ascii_lower(keyword@);
    }
    let kv = trim_vec(chars_of(keyword).as_slice());
    let kt = string_of(kv.as_slice());
    let kw = to_lower(kt.as_str());
    let kwv = chars_of(kw.as_str());
    if kwv.len() == 0 {
        return Vec::new();
    }
    let ghost fv = pairs_view(files@);
    let mut hits: Vec<(String, String, String)> = Vec::new();
    assert(triples_view(hits@) =~= Seq::<(Seq<char>, Seq<char>, Seq<char>)>::empty());
    let mut i: usize = 0;
    while i < files.len()
        invariant
            i <= files@.len(),
            fv == pairs_view(files@),
            kwv@ == search_key(keyword@),
            triples_view(hits@) == research_hits(fv, kwv@, i as int),
        decreases files@.len() - i,
    {
        let ghost before = triples_view(hits@);
        match research_hit_exec(files[i].0.as_str(), files[i].1.as_str(), kwv.as_slice()) {
            Some(t) => {
                let ghost tv = (t.0@, t.1@, t.2@);
                hits.push(t);
                assert(triples_view(hits@) =~= before.push(tv));
            },
            None => {},
        }
        i += 1;
    }
    let ghost hv = triples_view(hits@);
    let mut names: Vec<String> = Vec::new();
    let mut j: usize = 0;
    while j < hits.len()
        invariant
            j <= hits@.len(),
            hv == triples_view(hits@),
            names@.len() == j,
            forall|q: int| 0 <= q < j ==> (#[trigger] names@[q])@ == hv[q].0,
        decreases hits@.len() - j,
    {
        names.push(string_of(chars_of(hits[j].0.as_str()).as_slice()));
        j += 1;
    }
    assert(keys_view(names@) =~= hit_names(hv));
    let order = order_by_key(&names);
    let mut out: Vec<(String, String, String)> = Vec::new();
    let mut k: usize = 0;
    while k < order.len()
        invariant
            k <= order@.len(),
            hv == triples_view(hits@),
            key_order(hit_names(hv), order@),
            triples_view(out@) == order@.take(k as int).map_values(|q: usize| hv[q as int]),
        decreases order@.len() - k,
    {
        let x = order[k];
        assert(x < hv.len());
        let t = &hits[x];
        let c = (
            string_of(chars_of(t.0.as_str()).as_slice()),
            string_of(chars_of(t.1.as_str()).as_slice()),
            string_of(chars_of(t.2.as_str()).as_slice()),
        );
        let ghost before = triples_view(out@);
        out.push(c);
        assert(triples_view(out@) =~= before.push(hv[x as int]));
        assert(order@.take(k + 1).map_values(|q: usize| hv[q as int]) =~= order@.take(k as int).map_values(
            |q: usize| hv[q as int],
        ).push(hv[x as int]));
        k += 1;
    }
    assert(order@.take(order@.len() as int) =~= order@);
    assert(sorted_by_name(hv, triples_view(out@)));
    out
}

} // verus!
