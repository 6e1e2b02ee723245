//! `/find`: fuzzy file search: scoring a path against a pattern and
//! ranking the matches.
use vstd::prelude::*;
use crate::style::{BOLD, GREEN, RESET};
use crate::text::{
    boundary_exec, boundary_index, byte_boundary, byte_len, byte_offset, matches_at,
    matches_at_exec, push_all, push_str, str_byte_len,
    chars_of, contains, contains_exec, count_char, count_char_exec, last_index, last_index_exec,
    lemma_count_char_bound, lemma_lex_total, lemma_lex_trans, lex_le, lex_le_exec, lower_text,
    slice_of, split_char, split_on, starts_with, starts_with_exec, string_of, to_lower, eq_exec,
};

verus! {

/// Result of a fuzzy file match: the path and its score (higher is better).
#[derive(Debug, Clone)]
pub struct FindMatch {
    pub path: String,
    pub score: i32,
}

/// The last component of a path (what follows its last `/`).
pub open spec fn file_name_of(path: Seq<char>) -> Seq<char> {
    match last_index(path, '/') {
        Some(k) => path.skip(k + 1),
        None => path,
    }
}

/// The score of `path` for `pattern`, ignoring case: `None` when the path
/// does not contain the pattern; else 100, plus 50 when the file name
/// contains it (30 more when the name starts with it, 20 more when the
/// name's part before its first `.` is the pattern), less 2 per `/`.
pub open spec fn fuzzy(path: Seq<char>, pattern: Seq<char>) -> Option<int> {
    let pl = lower_text(path);
    let ql = lower_text(pattern);
    if !contains(pl, ql) {
        None
    } else {
        let fl = lower_text(file_name_of(path));
        let bonus: int = if contains(fl, ql) {
            50 + (if starts_with(fl, ql) {
                30int
            } else {
                0int
            }) + (if split_on(fl, '.')[0] == ql {
                20int
            } else {
                0int
            })
        } else {
            0
        };
        Some(100 + bonus - 2 * count_char(path, '/'))
    }
}

/// Score a file path against a fuzzy pattern (case-insensitive substring match).
/// Returns None if the pattern doesn't match.
pub fn fuzzy_score(path: &str, pattern: &str) -> (r: Option<i32>)
    requires
        count_char(path@, '/') <= 1_073_741_823,
    ensures
        match r {
            Some(s) => fuzzy(path@, pattern@) == Some(s as int),
            None => fuzzy(path@, pattern@) is None,
        },
{
    let pl = to_lower(path);
    let ql = to_lower(pattern);
    let qv = chars_of(ql.as_str());
    if !contains_exec(chars_of(pl.as_str()).as_slice(), qv.as_slice()) {
        return None;
    }
    let pv = chars_of(path);
    let n = pv.len();
    let name = match last_index_exec(pv.as_slice(), '/') {
        Some(k) => {
            let t = slice_of(pv.as_slice(), k + 1, n);
            assert(t@ =~= pv@.skip(k + 1));
            t
        },
        None => pv.clone(),
    };
    assert(name@ == file_name_of(path@));
    let fl = to_lower(string_of(name.as_slice()).as_str());
    let fv = chars_of(fl.as_str());
    let mut score: i32 = 100;
    if contains_exec(fv.as_slice(), qv.as_slice()) {
        score = score + 50;
        if starts_with_exec(fv.as_slice(), qv.as_slice()) {
            score = score + 30;
        }
        let parts = split_char(fv.as_slice(), '.');
        assert(split_on(fv@, '.').len() > 0);
        assert(parts.deep_view().len() == parts@.len());
        assert(parts.deep_view()[0] == parts@[0]@);
        if eq_exec(parts[0].as_slice(), qv.as_slice()) {
            score = score + 20;
        }
    }
    let depth = count_char_exec(pv.as_slice(), '/');
    let d: i32 = depth as i32;
    score = score - d * 2;
    Some(score)
}

/// Match `a` ranks no lower than match `b`: a higher score, or the same
/// score and a path not after it.
pub open spec fn match_le(a: (Seq<char>, int), b: (Seq<char>, int)) -> bool {
    if a.1 == b.1 {
        lex_le(a.0, b.0)
    } else {
        a.1 > b.1
    }
}

pub open spec fn matches_sorted(r: Seq<(Seq<char>, int)>) -> bool {
    forall|i: int, j: int| 0 <= i < j < r.len() ==> match_le(#[trigger] r[i], #[trigger] r[j])
}

pub open spec fn matches_view(v: Seq<FindMatch>) -> Seq<(Seq<char>, int)> {
    v.map_values(|m: FindMatch| (m.path@, m.score as int))
}

proof fn lemma_match_total(a: (Seq<char>, int), b: (Seq<char>, int))
    ensures
        match_le(a, b) || match_le(b, a),
{
    lemma_lex_total(a.0, b.0);
}

proof fn lemma_match_trans(a: (Seq<char>, int), b: (Seq<char>, int), c: (Seq<char>, int))
    requires
        match_le(a, b),
        match_le(b, c),
    ensures
        match_le(a, c),
{
    if a.1 == b.1 && b.1 == c.1 {
        lemma_lex_trans(a.0, b.0, c.0);
    }
}

fn match_le_exec(a: &FindMatch, b: &FindMatch) -> (r: bool)
    ensures
        r == match_le((a.path@, a.score as int), (b.path@, b.score as int)),
{
    if a.score == b.score {
        lex_le_exec(chars_of(a.path.as_str()).as_slice(), chars_of(b.path.as_str()).as_slice())
    } else {
        a.score > b.score
    }
}

fn insert_match(out: &mut Vec<FindMatch>, x: FindMatch)
    requires
        matches_sorted(matches_view(old(out)@)),
    ensures
        matches_sorted(matches_view(final(out)@)),
        matches_view(final(out)@).to_multiset() == matches_view(old(out)@).to_multiset().insert(
            (x.path@, x.score as int),
        ),
{
    let ghost ov = matches_view(out@);
    let ghost xv = (x.path@, x.score as int);
    let mut p: usize = 0;
    let mut stop = false;
    while p < out.len() && !stop
        invariant
            p <= out@.len(),
            ov == matches_view(out@),
            xv == (x.path@, x.score as int),
            forall|k: int| 0 <= k < p ==> match_le(#[trigger] ov[k], xv),
            stop ==> p < out@.len() && !match_le(ov[p as int], xv),
        decreases out@.len() - p + if stop { 0int } else { 1int },
    {
        if match_le_exec(&out[p], &x) {
            p += 1;
        } else {
            stop = true;
        }
    }
    if p < out.len() {
        proof {
            lemma_match_total(ov[p as int], xv);
        }
    }
    out.insert(p, x);
    let ghost nv = matches_view(out@);
    assert(nv =~= ov.insert(p as int, xv));
    assert forall|i: int, j: int| 0 <= i < j < nv.len() implies match_le(#[trigger] nv[i], #[trigger] nv[j]) by {
        if j < p {
            assert(nv[i] == ov[i] && nv[j] == ov[j]);
        } else if j == p {
            assert(nv[i] == ov[i]);
        } else if i == p {
            assert(nv[j] == ov[j - 1]);
            if j - 1 > p {
                assert(match_le(ov[p as int], ov[j - 1]));
                lemma_match_trans(xv, ov[p as int], ov[j - 1]);
            }
        } else if i < p {
            assert(nv[i] == ov[i] && nv[j] == ov[j - 1]);
        } else {
            assert(nv[i] == ov[i - 1] && nv[j] == ov[j - 1]);
        }
    }
    proof {
        vstd::seq_lib::to_multiset_insert(ov, p as int, xv);
    }
}

/// The paths among the first `k` that match, with their scores, in order.
pub open spec fn scored(files: Seq<Seq<char>>, pattern: Seq<char>, k: int) -> Seq<(Seq<char>, int)>
    decreases k,
{
    if k <= 0 {
        seq![]
    } else {
        match fuzzy(files[k - 1], pattern) {
            Some(s) => scored(files, pattern, k - 1).push((files[k - 1], s)),
            None => scored(files, pattern, k - 1),
        }
    }
}

/// The paths that match `pattern`, best first (by score, then by path).
pub fn find_matches(files: &Vec<String>, pattern: &str) -> (r: Vec<FindMatch>)
    requires
        forall|i: int| 0 <= i < files@.len() ==> count_char(#[trigger] files@[i]@, '/') <= 1_073_741_823,
    ensures
        matches_sorted(matches_view(r@)),
        matches_view(r@).to_multiset() == scored(
            files@.map_values(|f: String| f@),
            pattern@,
            files@.len() as int,
        ).to_multiset(),
{
    let ghost fv = files@.map_values(|f: String| f@);
    let mut out: Vec<FindMatch> = Vec::new();
    assert(matches_view(out@) =~= Seq::<(Seq<char>, int)>::empty());
    proof {
        broadcast use vstd::seq_lib::group_to_multiset_ensures;
    }
    let mut i: usize = 0;
    while i < files.len()
        invariant
            i <= files@.len(),
            fv == files@.map_values(|f: String| f@),
            forall|q: int| 0 <= q < files@.len() ==> count_char(#[trigger] files@[q]@, '/') <= 1_073_741_823,
            matches_sorted(matches_view(out@)),
            matches_view(out@).to_multiset() == scored(fv, pattern@, i as int).to_multiset(),
        decreases files@.len() - i,
    {
        assert(files@[i as int]@ == fv[i as int]);
        match fuzzy_score(files[i].as_str(), pattern) {
            Some(s) => {
                let m = FindMatch { path: string_of(chars_of(files[i].as_str()).as_slice()), score: s };
                insert_match(&mut out, m);
                proof {
                    vstd::seq_lib::to_multiset_build(scored(fv, pattern@, i as int), (fv[i as int], s as int));
                }
            },
            None => {},
        }
        i += 1;
    }
    out
}

/// The last index at or before `i` at which `p` occurs in `s`.
pub open spec fn rfind_at(s: Seq<char>, p: Seq<char>, i: int) -> Option<int>
    decreases i + 1,
{
    if i < 0 {
        None
    } else if matches_at(s, p, i) {
        Some(i)
    } else {
        rfind_at(s, p, i - 1)
    }
}

/// `str::rfind`: the last index at which `p` occurs in `s`.
pub open spec fn rfind(s: Seq<char>, p: Seq<char>) -> Option<int> {
    rfind_at(s, p, s.len() - p.len())
}

proof fn lemma_rfind_at(s: Seq<char>, p: Seq<char>, i: int)
    ensures
        rfind_at(s, p, i) matches Some(k) ==> 0 <= k <= i && matches_at(s, p, k),
    decreases i + 1,
{
    if i >= 0 && !matches_at(s, p, i) {
        lemma_rfind_at(s, p, i - 1);
    }
}

fn rfind_exec(s: &[char], p: &[char]) -> (r: Option<usize>)
    ensures
        match r {
            Some(k) => rfind(s@, p@) == Some(k as int) && k + p@.len() <= s@.len(),
            None => rfind(s@, p@) is None,
        },
{
    if p.len() > s.len() {
        return None;
    }
    let mut i: usize = s.len() - p.len();
    loop
        invariant
            i + p@.len() <= s@.len(),
            rfind(s@, p@) == rfind_at(s@, p@, i as int),
        decreases i,
    {
        if matches_at_exec(s, p, i) {
            return Some(i);
        }
        if i == 0 {
            assert(rfind_at(s@, p@, -1) is None);
            return None;
        }
        i -= 1;
    }
}

/// The byte offsets where the highlight of `pattern` in `path` starts and
/// ends: at the last occurrence of the lower-cased pattern in the
/// lower-cased path, as long as the pattern's bytes.
pub open spec fn highlight_span(path: Seq<char>, pattern: Seq<char>) -> Option<(nat, nat)> {
    let lp = lower_text(path);
    match rfind(lp, lower_text(pattern)) {
        Some(k) => Some((byte_len(lp.take(k)), byte_len(lp.take(k)) + byte_len(pattern))),
        None => None,
    }
}

/// The highlight's offsets are character boundaries of `path` (what
/// slicing `path` at them needs).
pub open spec fn highlight_ok(path: Seq<char>, pattern: Seq<char>) -> bool {
    match highlight_span(path, pattern) {
        Some((a, b)) => byte_boundary(path, a) && byte_boundary(path, b),
        None => true,
    }
}

/// The path with the matched part in bold green.
pub open spec fn highlighted(path: Seq<char>, pattern: Seq<char>) -> Seq<char> {
    match highlight_span(path, pattern) {
        Some((a, b)) => {
            let i = boundary_index(path, a);
            let j = boundary_index(path, b);
            path.take(i) + BOLD@ + GREEN@ + path.subrange(i, j) + RESET@ + path.skip(j)
        },
        None => path,
    }
}

/// Highlight the matching pattern within a file path for display.
pub fn highlight_match(path: &str, pattern: &str) -> (r: String)
    requires
        highlight_ok(path@, pattern@),
        byte_len(path@) < usize::MAX - 4,
    ensures
        r@ == highlighted(path@, pattern@),
{
    let lp = to_lower(path);
    let lq = to_lower(pattern);
    let lpv = chars_of(lp.as_str());
    let lqv = chars_of(lq.as_str());
    let pv = chars_of(path);
    let _ = str_byte_len(lp.as_str());
    let total = str_byte_len(path);
    match rfind_exec(lpv.as_slice(), lqv.as_slice()) {
        Some(k) => {
            let a = byte_offset(lpv.as_slice(), k);
            let plen = str_byte_len(pattern);
            assert(byte_boundary(path@, (a + plen) as nat));
            proof {
                let w = choose|w: int| 0 <= w <= path@.len() && byte_len(#[trigger] path@.take(w)) == a + plen;
                assert(path@.take(path@.len() as int) =~= path@);
                if w < path@.len() {
                    crate::text::lemma_byte_len_take_mono(path@, w, path@.len() as int);
                }
            }
            let b = a + plen;
            let i = match boundary_exec(pv.as_slice(), a) {
                Some(i) => i,
                None => 0,
            };
            let j = match boundary_exec(pv.as_slice(), b) {
                Some(j) => j,
                None => 0,
            };
            assert(i <= j) by {
                if i > j {
                    crate::text::lemma_byte_len_take_mono(path@, j as int, i as int);
                }
            }
            let mut out = slice_of(pv.as_slice(), 0, i);
            push_str(&mut out, BOLD);
            push_str(&mut out, GREEN);
            let mid = slice_of(pv.as_slice(), i, j);
            push_all(&mut out, mid.as_slice());
            push_str(&mut out, RESET);
            let tail = slice_of(pv.as_slice(), j, pv.len());
            push_all(&mut out, tail.as_slice());
            assert(out@ =~= highlighted(path@, pattern@));
            string_of(out.as_slice())
        },
        None => string_of(pv.as_slice()),
    }
}

/// Highlight the match when the path can be cut where the highlight falls
/// (and is not near `usize::MAX` bytes long); `None` otherwise.
pub fn try_highlight_match(path: &str, pattern: &str) -> (r: Option<String>)
    ensures
        match r {
            Some(h) => highlight_ok(path@, pattern@) && h@ == highlighted(path@, pattern@),
            None => !highlight_ok(path@, pattern@) || byte_len(path@) >= usize::MAX - 4,
        },
{
    let total = str_byte_len(path);
    if total >= usize::MAX - 4 {
        return None;
    }
    let lp = to_lower(path);
    let lq = to_lower(pattern);
    let lpv = chars_of(lp.as_str());
    let lqv = chars_of(lq.as_str());
    let pv = chars_of(path);
    let _ = str_byte_len(lp.as_str());
    match rfind_exec(lpv.as_slice(), lqv.as_slice()) {
        Some(k) => {
            let a = byte_offset(lpv.as_slice(), k);
            let plen = str_byte_len(pattern);
            if a > total || plen > total - a {
                proof {
                    if byte_boundary(path@, (a + plen) as nat) {
                        let w = choose|w: int|
                            0 <= w <= path@.len() && byte_len(#[trigger] path@.take(w)) == a + plen;
                        assert(path@.take(path@.len() as int) =~= path@);
                        if w < path@.len() {
                            crate::text::lemma_byte_len_take_mono(path@, w, path@.len() as int);
                        }
                    }
                }
                return None;
            }
            let ok_a = boundary_exec(pv.as_slice(), a).is_some();
            let ok_b = boundary_exec(pv.as_slice(), a + plen).is_some();
            if ok_a && ok_b {
                Some(highlight_match(path, pattern))
            } else {
                None
            }
        },
        None => Some(highlight_match(path, pattern)),
    }
}

} // verus!
