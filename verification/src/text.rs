//! Character-sequence primitives: the behaviour of the `str` operations the
//! library relies on, stated over `Seq<char>` and implemented on `[char]`.
use vstd::prelude::*;
use vstd::std_specs::iter::IteratorSpec;

verus! {

// ───────────────────────── conversions ─────────────────────────

/// The characters of `s`, in order, read one by one from `str::chars`.
pub(crate) fn chars_of(s: &str) -> (r: Vec<char>)
    ensures
        r@ == s@,
{
    let mut it = s.chars();
    let mut v: Vec<char> = Vec::new();
    loop
        invariant
            v@ + IteratorSpec::remaining(&it) == s@,
            IteratorSpec::obeys_prophetic_iter_laws(&it),
            IteratorSpec::decrease(&it) is Some,
        ensures
            v@ == s@,
        decreases IteratorSpec::decrease(&it)->0,
    {
        match it.next() {
            Some(c) => {
                v.push(c);
            },
            None => {
                assert(v@ =~= v@ + IteratorSpec::remaining(&it));
                break;
            },
        }
    }
    v
}

/// `String: FromIterator<&char>`: the string whose characters are those of `v`, in order.
#[verifier::external_body]
pub(crate) fn string_of(v: &[char]) -> (r: String)
    ensures
        r@ == v@,
{
    v.iter().collect()
}

/// A copy of `s[from..to]`.
pub fn slice_of(s: &[char], from: usize, to: usize) -> (r: Vec<char>)
    requires
        from <= to <= s@.len(),
    ensures
        r@ == s@.subrange(from as int, to as int),
{
    let mut r: Vec<char> = Vec::new();
    let mut i = from;
    while i < to
        invariant
            from <= i <= to <= s@.len(),
            r@ == s@.subrange(from as int, i as int),
        decreases to - i,
    {
        r.push(s[i]);
        i += 1;
    }
    r
}

/// Appends the characters of `s` to `out`.
pub fn push_all(out: &mut Vec<char>, s: &[char])
    ensures
        final(out)@ == old(out)@ + s@,
{
    let mut i: usize = 0;
    while i < s.len()
        invariant
            i <= s@.len(),
            out@ == old(out)@ + s@.take(i as int),
        decreases s@.len() - i,
    {
        out.push(s[i]);
        i += 1;
        assert(s@.take(i as int) =~= s@.take(i - 1) + seq![s@[i - 1]]);
    }
    assert(s@.take(s@.len() as int) =~= s@);
}

/// The characters of a string literal or other `&str`, appended to `out`.
pub fn push_str(out: &mut Vec<char>, s: &str)
    ensures
        final(out)@ == old(out)@ + s@,
{
    let v = chars_of(s);
    push_all(out, v.as_slice());
}

// ───────────────────────── whitespace ─────────────────────────

/// Unicode `White_Space`, the property that `char::is_whitespace` tests.
pub open spec fn is_ws(c: char) -> bool {
    ||| c == ' '
    ||| ('\t' <= c && c <= '\r')
    ||| c == '\u{85}'
    ||| c == '\u{a0}'
    ||| c == '\u{1680}'
    ||| ('\u{2000}' <= c && c <= '\u{200a}')
    ||| c == '\u{2028}'
    ||| c == '\u{2029}'
    ||| c == '\u{202f}'
    ||| c == '\u{205f}'
    ||| c == '\u{3000}'
}

pub fn char_is_ws(c: char) -> (r: bool)
    ensures
        r == is_ws(c),
{
    c == ' ' || ('\t' <= c && c <= '\r') || c == '\u{85}' || c == '\u{a0}' || c == '\u{1680}'
        || ('\u{2000}' <= c && c <= '\u{200a}') || c == '\u{2028}' || c == '\u{2029}' || c
        == '\u{202f}' || c == '\u{205f}' || c == '\u{3000}'
}

/// `str::trim_start`: `s` without its leading whitespace.
pub open spec fn trim_start(s: Seq<char>) -> Seq<char>
    decreases s.len(),
{
    if s.len() > 0 && is_ws(s[0]) {
        trim_start(s.drop_first())
    } else {
        s
    }
}

/// `str::trim_end`: `s` without its trailing whitespace.
pub open spec fn trim_end(s: Seq<char>) -> Seq<char>
    decreases s.len(),
{
    if s.len() > 0 && is_ws(s.last()) {
        trim_end(s.drop_last())
    } else {
        s
    }
}

/// `str::trim`.
pub open spec fn trim(s: Seq<char>) -> Seq<char> {
    trim_end(trim_start(s))
}

/// Where the leading whitespace of `s` ends.
pub open spec fn lead_ws(s: Seq<char>) -> nat
    decreases s.len(),
{
    if s.len() > 0 && is_ws(s[0]) {
        1 + lead_ws(s.drop_first())
    } else {
        0
    }
}

pub proof fn lemma_trim_start_skip(s: Seq<char>)
    ensures
        lead_ws(s) <= s.len(),
        trim_start(s) == s.skip(lead_ws(s) as int),
        forall|k: int| 0 <= k < lead_ws(s) ==> is_ws(#[trigger] s[k]),
        lead_ws(s) < s.len() ==> !is_ws(s[lead_ws(s) as int]),
    decreases s.len(),
{
    if s.len() > 0 && is_ws(s[0]) {
        lemma_trim_start_skip(s.drop_first());
        assert(s.drop_first().skip(lead_ws(s.drop_first()) as int) =~= s.skip(lead_ws(s) as int));
        assert forall|k: int| 0 <= k < lead_ws(s) implies is_ws(#[trigger] s[k]) by {
            if k > 0 {
                assert(s[k] == s.drop_first()[k - 1]);
            }
        }
        if lead_ws(s) < s.len() {
            assert(s[lead_ws(s) as int] == s.drop_first()[lead_ws(s.drop_first()) as int]);
        }
    } else {
        assert(s.skip(0) =~= s);
    }
}

proof fn lemma_trim_end_prefix(s: Seq<char>)
    ensures
        trim_end(s).len() <= s.len(),
        trim_end(s) == s.take(trim_end(s).len() as int),
        trim_end(s).len() > 0 ==> !is_ws(trim_end(s).last()),
    decreases s.len(),
{
    if s.len() > 0 && is_ws(s.last()) {
        lemma_trim_end_prefix(s.drop_last());
        let k = trim_end(s.drop_last()).len() as int;
        assert(s.drop_last().take(k) =~= s.take(k));
    } else {
        assert(s.take(s.len() as int) =~= s);
    }
}

/// Trimming a trimmed text changes nothing.
pub proof fn lemma_trim_trim(s: Seq<char>)
    ensures
        trim(trim(s)) == trim(s),
{
    lemma_trim_start_skip(s);
    let u = trim_start(s);
    lemma_trim_end_prefix(u);
    let t = trim_end(u);
    if t.len() > 0 {
        assert(t[0] == u[0]);
        assert(u[0] == s[lead_ws(s) as int]);
    }
    assert(trim_start(t) == t);
    assert(trim_end(t) == t);
}

/// Index of the first non-whitespace character of `s[from..]` (or `s.len()`).
fn skip_ws(s: &[char], from: usize) -> (r: usize)
    requires
        from <= s@.len(),
    ensures
        from <= r <= s@.len(),
        trim_start(s@.skip(from as int)) == s@.skip(r as int),
{
    let mut i = from;
    while i < s.len() && char_is_ws(s[i])
        invariant
            from <= i <= s@.len(),
            trim_start(s@.skip(from as int)) == trim_start(s@.skip(i as int)),
        decreases s@.len() - i,
    {
        assert(s@.skip(i as int).drop_first() =~= s@.skip(i + 1));
        i += 1;
    }
    i
}

/// `trim_start` of `s[from..to]`, as the index where it starts.
pub fn trim_start_index(s: &[char]) -> (r: usize)
    ensures
        r <= s@.len(),
        trim_start(s@) == s@.skip(r as int),
{
    assert(s@.skip(0) =~= s@);
    skip_ws(s, 0)
}

/// `trim_end` of `s`, as the length that it keeps.
pub fn trim_end_index(s: &[char]) -> (r: usize)
    ensures
        r <= s@.len(),
        trim_end(s@) == s@.take(r as int),
{
    let mut j = s.len();
    assert(s@.take(j as int) =~= s@);
    while j > 0 && char_is_ws(s[j - 1])
        invariant
            j <= s@.len(),
            trim_end(s@) == trim_end(s@.take(j as int)),
        decreases j,
    {
        assert(s@.take(j as int).drop_last() =~= s@.take(j - 1));
        j -= 1;
    }
    j
}

/// `str::trim`, copied.
pub fn trim_vec(s: &[char]) -> (r: Vec<char>)
    ensures
        r@ == trim(s@),
{
    let a = trim_start_index(s);
    let t = slice_of(s, a, s.len());
    assert(t@ == trim_start(s@));
    let b = trim_end_index(t.as_slice());
    slice_of(t.as_slice(), 0, b)
}

// ───────────────────────── searching ─────────────────────────

/// `p` occurs in `s` starting at index `i`.
pub open spec fn matches_at(s: Seq<char>, p: Seq<char>, i: int) -> bool {
    0 <= i && i + p.len() <= s.len() && s.subrange(i, i + p.len()) == p
}

/// The first index `>= i` at which `p` occurs in `s` (`str::find` on `s[i..]`,
/// counted from the start of `s`).
pub open spec fn find_from(s: Seq<char>, p: Seq<char>, i: int) -> Option<int>
    decreases s.len() + 1 - i,
{
    if i < 0 || i + p.len() > s.len() {
        None
    } else if matches_at(s, p, i) {
        Some(i)
    } else {
        find_from(s, p, i + 1)
    }
}

/// `str::find`.
pub open spec fn find(s: Seq<char>, p: Seq<char>) -> Option<int> {
    find_from(s, p, 0)
}

/// `str::contains`.
pub open spec fn contains(s: Seq<char>, p: Seq<char>) -> bool {
    find(s, p) is Some
}

/// `str::starts_with`.
pub open spec fn starts_with(s: Seq<char>, p: Seq<char>) -> bool {
    p.len() <= s.len() && s.take(p.len() as int) == p
}

/// What `find_from` means: the first occurrence at or after `i`.
pub proof fn lemma_find_from(s: Seq<char>, p: Seq<char>, i: int)
    requires
        0 <= i,
    ensures
        find_from(s, p, i) matches Some(k) ==> i <= k && matches_at(s, p, k) && forall|j: int|
            i <= j < k ==> !#[trigger] matches_at(s, p, j),
        find_from(s, p, i) is None ==> forall|j: int| i <= j ==> !#[trigger] matches_at(s, p, j),
    decreases s.len() + 1 - i,
{
    if i + p.len() > s.len() {
    } else if matches_at(s, p, i) {
    } else {
        lemma_find_from(s, p, i + 1);
    }
}

/// `p` occurs at `i`, tested character by character.
pub fn matches_at_exec(s: &[char], p: &[char], i: usize) -> (r: bool)
    ensures
        r == matches_at(s@, p@, i as int),
{
    if i > s.len() || p.len() > s.len() - i {
        return false;
    }
    let mut k: usize = 0;
    while k < p.len()
        invariant
            i + p@.len() <= s@.len(),
            s@.len() == s.len(),
            k <= p@.len(),
            forall|m: int| 0 <= m < k ==> s@[i + m] == p@[m],
        decreases p@.len() - k,
    {
        if s[i + k] != p[k] {
            assert(s@.subrange(i as int, i + p@.len())[k as int] != p@[k as int]);
            return false;
        }
        k += 1;
    }
    assert(s@.subrange(i as int, i + p@.len()) =~= p@);
    true
}

/// `str::find` on `s[from..]`, reported as an index into `s`.
pub fn find_from_exec(s: &[char], p: &[char], from: usize) -> (r: Option<usize>)
    ensures
        match r {
            Some(k) => find_from(s@, p@, from as int) == Some(k as int),
            None => find_from(s@, p@, from as int) is None,
        },
{
    if p.len() > s.len() || from > s.len() - p.len() {
        return None;
    }
    let last = s.len() - p.len();
    let mut i = from;
    loop
        invariant
            from <= i <= last,
            last + p@.len() == s@.len(),
            find_from(s@, p@, from as int) == find_from(s@, p@, i as int),
        decreases last - i,
    {
        if matches_at_exec(s, p, i) {
            return Some(i);
        }
        if i == last {
            assert(find_from(s@, p@, i + 1) is None);
            return None;
        }
        i += 1;
    }
}

/// `str::find`.
pub fn find_exec(s: &[char], p: &[char]) -> (r: Option<usize>)
    ensures
        match r {
            Some(k) => find(s@, p@) == Some(k as int),
            None => find(s@, p@) is None,
        },
{
    find_from_exec(s, p, 0)
}

/// `str::find` with a one-character pattern.
pub fn find_char_from(s: &[char], c: char, from: usize) -> (r: Option<usize>)
    ensures
        match r {
            Some(k) => find_from(s@, seq![c], from as int) == Some(k as int),
            None => find_from(s@, seq![c], from as int) is None,
        },
{
    let p = vec![c];
    assert(p@ =~= seq![c]);
    find_from_exec(s, p.as_slice(), from)
}

/// `str::contains`.
pub fn contains_exec(s: &[char], p: &[char]) -> (r: bool)
    ensures
        r == contains(s@, p@),
{
    find_exec(s, p).is_some()
}

/// `str::starts_with`.
pub fn starts_with_exec(s: &[char], p: &[char]) -> (r: bool)
    ensures
        r == starts_with(s@, p@),
{
    let r = matches_at_exec(s, p, 0);
    assert(r == starts_with(s@, p@)) by {
        if p@.len() <= s@.len() {
            assert(s@.subrange(0, p@.len() as int) =~= s@.take(p@.len() as int));
        }
    }
    r
}

/// `s == p`, character by character.
pub fn eq_exec(s: &[char], p: &[char]) -> (r: bool)
    ensures
        r == (s@ == p@),
{
    if s.len() != p.len() {
        return false;
    }
    let r = matches_at_exec(s, p, 0);
    assert(s@.subrange(0, s@.len() as int) =~= s@);
    r
}

/// `s == lit` for a string literal (or any `&str`).
pub fn eq_str(s: &[char], lit: &str) -> (r: bool)
    ensures
        r == (s@ == lit@),
{
    let p = chars_of(lit);
    eq_exec(s, p.as_slice())
}


// ───────────────────────── splitting and joining ─────────────────────────

/// The state of `str::split_whitespace` after reading `s`: the finished words
/// and the word being read.
pub open spec fn ws_state(s: Seq<char>) -> (Seq<Seq<char>>, Seq<char>)
    decreases s.len(),
{
    if s.len() == 0 {
        (seq![], seq![])
    } else {
        let (done, cur) = ws_state(s.drop_last());
        let c = s.last();
        if is_ws(c) {
            if cur.len() > 0 {
                (done.push(cur), seq![])
            } else {
                (done, seq![])
            }
        } else {
            (done, cur.push(c))
        }
    }
}

/// `str::split_whitespace`: the maximal runs of non-whitespace characters.
pub open spec fn words(s: Seq<char>) -> Seq<Seq<char>> {
    let (done, cur) = ws_state(s);
    if cur.len() > 0 {
        done.push(cur)
    } else {
        done
    }
}

proof fn lemma_words_nonempty_if(s: Seq<char>, k: int)
    requires
        0 <= k < s.len(),
        !is_ws(s[k]),
    ensures
        ws_state(s).0.len() + (if ws_state(s).1.len() > 0 { 1int } else { 0int }) > 0,
    decreases s.len(),
{
    if k < s.len() - 1 {
        lemma_words_nonempty_if(s.drop_last(), k);
    }
}

/// A trimmed text with some character has a word.
pub proof fn lemma_words_of_trimmed(s: Seq<char>)
    requires
        s.len() > 0,
        trim(s) == s,
    ensures
        words(s).len() > 0,
{
    lemma_trim_start_skip(s);
    lemma_trim_end_prefix(trim_start(s));
    if is_ws(s[0]) {
        assert(lead_ws(s) >= 1);
        assert(trim(s).len() < s.len());
    }
    lemma_words_nonempty_if(s, 0);
}


/// Pushes a word, keeping the deep view in step.
pub(crate) fn push_word(done: &mut Vec<Vec<char>>, w: Vec<char>)
    ensures
        final(done).deep_view() == old(done).deep_view().push(w@),
{
    let ghost wv = w@;
    done.push(w);
    assert(done.deep_view() =~= old(done).deep_view().push(wv)) by {
        assert(done@[done@.len() - 1].deep_view() =~= wv);
    }
}

/// `str::split_whitespace`, collected.
pub fn split_ws(s: &[char]) -> (r: Vec<Vec<char>>)
    ensures
        r.deep_view() == words(s@),
{
    let mut done: Vec<Vec<char>> = Vec::new();
    let mut cur: Vec<char> = Vec::new();
    let mut i: usize = 0;
    assert(s@.take(0) =~= Seq::<char>::empty());
    assert(done.deep_view() =~= Seq::<Seq<char>>::empty());
    while i < s.len()
        invariant
            i <= s@.len(),
            (done.deep_view(), cur@) == ws_state(s@.take(i as int)),
        decreases s@.len() - i,
    {
        let c = s[i];
        assert(s@.take(i + 1).drop_last() =~= s@.take(i as int));
        assert(s@.take(i + 1).last() == c);
        let ghost old_done = done.deep_view();
        if char_is_ws(c) {
            if cur.len() > 0 {
                push_word(&mut done, cur);
            }
            cur = Vec::new();
            assert(cur@ =~= Seq::<char>::empty());
        } else {
            cur.push(c);
        }
        i += 1;
    }
    assert(s@.take(s@.len() as int) =~= s@);
    if cur.len() > 0 {
        push_word(&mut done, cur);
    }
    done
}

/// The state of `str::split(sep)` after reading `s`: the finished pieces and
/// the piece being read.
pub open spec fn split_state(s: Seq<char>, sep: char) -> (Seq<Seq<char>>, Seq<char>)
    decreases s.len(),
{
    if s.len() == 0 {
        (seq![], seq![])
    } else {
        let (done, cur) = split_state(s.drop_last(), sep);
        if s.last() == sep {
            (done.push(cur), seq![])
        } else {
            (done, cur.push(s.last()))
        }
    }
}

/// `str::split(sep)` with a one-character separator: always at least one piece.
pub open spec fn split_on(s: Seq<char>, sep: char) -> Seq<Seq<char>> {
    let (done, cur) = split_state(s, sep);
    done.push(cur)
}

/// `str::split(sep)`, collected.
pub fn split_char(s: &[char], sep: char) -> (r: Vec<Vec<char>>)
    ensures
        r.deep_view() == split_on(s@, sep),
{
    let mut done: Vec<Vec<char>> = Vec::new();
    let mut cur: Vec<char> = Vec::new();
    let mut i: usize = 0;
    assert(s@.take(0) =~= Seq::<char>::empty());
    assert(done.deep_view() =~= Seq::<Seq<char>>::empty());
    while i < s.len()
        invariant
            i <= s@.len(),
            (done.deep_view(), cur@) == split_state(s@.take(i as int), sep),
        decreases s@.len() - i,
    {
        let c = s[i];
        assert(s@.take(i + 1).drop_last() =~= s@.take(i as int));
        assert(s@.take(i + 1).last() == c);
        let ghost old_done = done.deep_view();
        if c == sep {
            push_word(&mut done, cur);
            cur = Vec::new();
            assert(cur@ =~= Seq::<char>::empty());
        } else {
            cur.push(c);
        }
        i += 1;
    }
    assert(s@.take(s@.len() as int) =~= s@);
    push_word(&mut done, cur);
    done
}

/// `[S]::join(sep)`.
pub open spec fn join(ws: Seq<Seq<char>>, sep: Seq<char>) -> Seq<char>
    decreases ws.len(),
{
    if ws.len() == 0 {
        seq![]
    } else if ws.len() == 1 {
        ws[0]
    } else {
        join(ws.drop_last(), sep) + sep + ws.last()
    }
}

/// `[S]::join(sep)`.
pub fn join_exec(ws: &Vec<Vec<char>>, sep: &[char]) -> (r: Vec<char>)
    ensures
        r@ == join(ws.deep_view(), sep@),
{
    let mut out: Vec<char> = Vec::new();
    let mut i: usize = 0;
    while i < ws.len()
        invariant
            i <= ws@.len(),
            out@ == join(ws.deep_view().take(i as int), sep@),
        decreases ws@.len() - i,
    {
        assert(ws.deep_view().take(i + 1).drop_last() =~= ws.deep_view().take(i as int));
        if i > 0 {
            push_all(&mut out, sep);
        }
        push_all(&mut out, ws[i].as_slice());
        if i == 0 {
            assert(out@ =~= ws.deep_view().take(1)[0]);
        }
        i += 1;
    }
    assert(ws.deep_view().take(ws@.len() as int) =~= ws.deep_view());
    out
}

/// `str::replace(from, to)`: the non-overlapping occurrences of `from`,
/// taken from the left, replaced by `to` (for a non-empty `from`).
pub open spec fn replace_all(s: Seq<char>, from: Seq<char>, to: Seq<char>) -> Seq<char>
    decreases s.len(),
{
    if s.len() == 0 {
        seq![]
    } else if from.len() > 0 && starts_with(s, from) {
        to + replace_all(s.skip(from.len() as int), from, to)
    } else {
        seq![s[0]] + replace_all(s.drop_first(), from, to)
    }
}

/// `str::replace(from, to)`.
pub fn replace_exec(s: &[char], from: &[char], to: &[char]) -> (r: Vec<char>)
    requires
        from@.len() > 0,
    ensures
        r@ == replace_all(s@, from@, to@),
{
    let mut out: Vec<char> = Vec::new();
    let mut i: usize = 0;
    assert(s@.skip(0) =~= s@);
    while i < s.len()
        invariant
            i <= s@.len(),
            from@.len() > 0,
            out@ + replace_all(s@.skip(i as int), from@, to@) == replace_all(s@, from@, to@),
        decreases s@.len() - i,
    {
        let ghost rest = s@.skip(i as int);
        let m = matches_at_exec(s, from, i);
        if m {
            assert(rest.take(from@.len() as int) =~= s@.subrange(i as int, i + from@.len()));
            assert(rest.skip(from@.len() as int) =~= s@.skip(i + from@.len()));
            let ghost o = out@;
            let ghost r2 = replace_all(s@.skip(i + from@.len()), from@, to@);
            assert(replace_all(rest, from@, to@) == to@ + r2);
            push_all(&mut out, to);
            assert(out@ + r2 =~= o + (to@ + r2));
            i += from.len();
        } else {
            assert(!starts_with(rest, from@)) by {
                if from@.len() <= rest.len() {
                    assert(rest.take(from@.len() as int) =~= s@.subrange(i as int, i + from@.len()));
                }
            }
            assert(rest.drop_first() =~= s@.skip(i + 1));
            let ghost o = out@;
            let ghost r2 = replace_all(s@.skip(i + 1), from@, to@);
            assert(replace_all(rest, from@, to@) == seq![s@[i as int]] + r2);
            out.push(s[i]);
            assert(out@ + r2 =~= o + (seq![s@[i as int]] + r2));
            i += 1;
        }
    }
    assert(s@.skip(i as int) =~= Seq::<char>::empty());
    assert(out@ + Seq::<char>::empty() =~= out@);
    out
}

// ───────────────────────── numbers ─────────────────────────

pub open spec fn is_digit(c: char) -> bool {
    '0' <= c && c <= '9'
}

pub open spec fn digit_val(c: char) -> nat {
    ((c as int) - ('0' as int)) as nat
}

pub open spec fn all_digits(s: Seq<char>) -> bool {
    forall|i: int| 0 <= i < s.len() ==> is_digit(#[trigger] s[i])
}

/// The value of a string of decimal digits.
pub open spec fn digits_value(s: Seq<char>) -> nat
    decreases s.len(),
{
    if s.len() == 0 {
        0
    } else {
        digits_value(s.drop_last()) * 10 + digit_val(s.last())
    }
}

/// `str::parse` for an unsigned integer type whose largest value is `max`:
/// an optional `+`, then one or more ASCII digits, with a value of at most `max`.
pub open spec fn parse_uint(s: Seq<char>, max: nat) -> Option<nat> {
    let t = if s.len() > 0 && s[0] == '+' {
        s.drop_first()
    } else {
        s
    };
    if t.len() > 0 && all_digits(t) && digits_value(t) <= max {
        Some(digits_value(t))
    } else {
        None
    }
}

/// `str::parse::<i32>` (and the other signed types, by `min` and `max`):
/// an optional sign, then one or more ASCII digits, with a value in range.
pub open spec fn parse_int(s: Seq<char>, min: int, max: int) -> Option<int> {
    if s.len() > 0 && s[0] == '-' {
        let t = s.drop_first();
        if t.len() > 0 && all_digits(t) && -(digits_value(t) as int) >= min {
            Some(-(digits_value(t) as int))
        } else {
            None
        }
    } else {
        match parse_uint(s, max as nat) {
            Some(v) => if max >= 0 { Some(v as int) } else { None },
            None => None,
        }
    }
}

proof fn lemma_digits_value_grows(t: Seq<char>, k: int)
    requires
        0 <= k <= t.len(),
        all_digits(t),
    ensures
        digits_value(t.take(k)) <= digits_value(t),
    decreases t.len() - k,
{
    if k < t.len() {
        lemma_digits_value_grows(t, k + 1);
        assert(t.take(k + 1).drop_last() =~= t.take(k));
    } else {
        assert(t.take(k) =~= t);
    }
}

/// The digits `s[from..]`, read as a number, if they are all digits and the
/// number is at most `max`.
fn digits_upto(s: &[char], from: usize, max: u64) -> (r: Option<u64>)
    requires
        from <= s@.len(),
    ensures
        match r {
            Some(v) => all_digits(s@.skip(from as int)) && digits_value(s@.skip(from as int))
                <= max && v == digits_value(s@.skip(from as int)),
            None => !(all_digits(s@.skip(from as int)) && digits_value(s@.skip(from as int))
                <= max),
        },
{
    let ghost t = s@.skip(from as int);
    let mut acc: u64 = 0;
    let mut i = from;
    assert(t.take(0) =~= Seq::<char>::empty());
    while i < s.len()
        invariant
            from <= i <= s@.len(),
            t == s@.skip(from as int),
            all_digits(t.take(i - from)),
            acc as nat == digits_value(t.take(i - from)),
            acc <= max,
        decreases s@.len() - i,
    {
        let c = s[i];
        assert(t[i - from] == c);
        if !('0' <= c && c <= '9') {
            return None;
        }
        let d = (c as u32 - '0' as u32) as u64;
        let next: u128 = (acc as u128) * 10 + (d as u128);
        assert(t.take(i + 1 - from).drop_last() =~= t.take(i - from));
        assert(all_digits(t.take(i + 1 - from)));
        if next > max as u128 {
            proof {
                if all_digits(t) {
                    lemma_digits_value_grows(t, i + 1 - from);
                }
            }
            return None;
        }
        acc = next as u64;
        i += 1;
    }
    assert(t.take(i - from) =~= t);
    Some(acc)
}

/// `str::parse::<u64>`-style parsing with an upper bound `max`
/// (`u32::MAX` gives `str::parse::<u32>`).
pub fn parse_uint_exec(s: &[char], max: u64) -> (r: Option<u64>)
    ensures
        match r {
            Some(v) => parse_uint(s@, max as nat) == Some(v as nat),
            None => parse_uint(s@, max as nat) is None,
        },
{
    let from: usize = if s.len() > 0 && s[0] == '+' {
        1
    } else {
        0
    };
    assert(from == 1 ==> s@.skip(1) =~= s@.drop_first());
    assert(s@.skip(0) =~= s@);
    if from == s.len() {
        return None;
    }
    digits_upto(s, from, max)
}

/// A run of one or more ASCII digits (no sign) read as a number of at most `max`.
pub open spec fn parse_digits(s: Seq<char>, max: nat) -> Option<nat> {
    if s.len() > 0 && all_digits(s) && digits_value(s) <= max {
        Some(digits_value(s))
    } else {
        None
    }
}

/// Reads a run of digits with no sign.
pub fn parse_digits_exec(s: &[char], max: u64) -> (r: Option<u64>)
    ensures
        match r {
            Some(v) => parse_digits(s@, max as nat) == Some(v as nat),
            None => parse_digits(s@, max as nat) is None,
        },
{
    if s.len() == 0 {
        return None;
    }
    assert(s@.skip(0) =~= s@);
    digits_upto(s, 0, max)
}

/// `str::parse::<i64>`.
pub fn parse_i64_exec(s: &[char]) -> (r: Option<i64>)
    ensures
        match r {
            Some(v) => parse_int(s@, i64::MIN as int, i64::MAX as int) == Some(v as int),
            None => parse_int(s@, i64::MIN as int, i64::MAX as int) is None,
        },
{
    if s.len() > 0 && s[0] == '-' {
        assert(s@.skip(1) =~= s@.drop_first());
        if s.len() == 1 {
            return None;
        }
        match digits_upto(s, 1, 0x8000_0000_0000_0000u64) {
            Some(v) => Some((0 - (v as i128)) as i64),
            None => None,
        }
    } else {
        match parse_uint_exec(s, i64::MAX as u64) {
            Some(v) => Some(v as i64),
            None => None,
        }
    }
}

/// `str::parse::<i32>`.
pub fn parse_i32_exec(s: &[char]) -> (r: Option<i32>)
    ensures
        match r {
            Some(v) => parse_int(s@, i32::MIN as int, i32::MAX as int) == Some(v as int),
            None => parse_int(s@, i32::MIN as int, i32::MAX as int) is None,
        },
{
    if s.len() > 0 && s[0] == '-' {
        assert(s@.skip(1) =~= s@.drop_first());
        if s.len() == 1 {
            return None;
        }
        match digits_upto(s, 1, 0x8000_0000u64) {
            Some(v) => Some((0 - (v as i64)) as i32),
            None => None,
        }
    } else {
        match parse_uint_exec(s, i32::MAX as u64) {
            Some(v) => Some(v as i32),
            None => None,
        }
    }
}

/// The decimal digit character for `d < 10`.
pub open spec fn digit_char(d: nat) -> char {
    if d == 0 { '0' }
    else if d == 1 { '1' }
    else if d == 2 { '2' }
    else if d == 3 { '3' }
    else if d == 4 { '4' }
    else if d == 5 { '5' }
    else if d == 6 { '6' }
    else if d == 7 { '7' }
    else if d == 8 { '8' }
    else { '9' }
}

fn digit_char_exec(d: u64) -> (r: char)
    requires
        d < 10,
    ensures
        r == digit_char(d as nat),
{
    if d == 0 { '0' }
    else if d == 1 { '1' }
    else if d == 2 { '2' }
    else if d == 3 { '3' }
    else if d == 4 { '4' }
    else if d == 5 { '5' }
    else if d == 6 { '6' }
    else if d == 7 { '7' }
    else if d == 8 { '8' }
    else { '9' }
}

/// The decimal numeral of `n`, as `format!("{}", n)` writes it.
pub open spec fn dec(n: nat) -> Seq<char>
    decreases n,
{
    if n < 10 {
        seq![digit_char(n)]
    } else {
        dec(n / 10).push(digit_char(n % 10))
    }
}

/// `format!("{}", n)` for a signed value.
pub open spec fn dec_signed(n: int) -> Seq<char> {
    if n < 0 {
        seq!['-'] + dec((-n) as nat)
    } else {
        dec(n as nat)
    }
}

/// `n` written with at least `w` digits, zeros in front (`format!("{:0w$}", n)`).
pub open spec fn dec_pad(n: nat, w: nat) -> Seq<char> {
    let d = dec(n);
    if d.len() < w {
        Seq::new((w - d.len()) as nat, |i: int| '0') + d
    } else {
        d
    }
}

/// Appends `format!("{}", n)`.
pub fn push_dec(out: &mut Vec<char>, n: u64)
    ensures
        final(out)@ == old(out)@ + dec(n as nat),
    decreases n,
{
    if n < 10 {
        out.push(digit_char_exec(n));
    } else {
        push_dec(out, n / 10);
        out.push(digit_char_exec(n % 10));
    }
}

/// Appends `format!("{}", n)` for a signed `n`.
pub fn push_dec_signed(out: &mut Vec<char>, n: i64)
    ensures
        final(out)@ == old(out)@ + dec_signed(n as int),
{
    if n < 0 {
        out.push('-');
        let m: u64 = if n == i64::MIN {
            0x8000_0000_0000_0000u64
        } else {
            (0 - n) as u64
        };
        push_dec(out, m);
    } else {
        push_dec(out, n as u64);
    }
}

pub proof fn lemma_dec_len(n: nat)
    ensures
        dec(n).len() >= 1,
        n < 10 ==> dec(n).len() == 1,
        10 <= n < 100 ==> dec(n).len() == 2,
        100 <= n < 1000 ==> dec(n).len() == 3,
        1000 <= n < 10000 ==> dec(n).len() == 4,
    decreases n,
{
    if n >= 10 {
        lemma_dec_len(n / 10);
    }
}

/// Appends `format!("{:0w$}", n)`.
pub fn push_dec_pad(out: &mut Vec<char>, n: u64, w: usize)
    ensures
        final(out)@ == old(out)@ + dec_pad(n as nat, w as nat),
{
    let mut digits: Vec<char> = Vec::new();
    push_dec(&mut digits, n);
    assert(digits@ =~= dec(n as nat));
    if digits.len() < w {
        let mut k: usize = 0;
        let pad = w - digits.len();
        while k < pad
            invariant
                k <= pad,
                pad == w - digits@.len(),
                out@ == old(out)@ + Seq::new(k as nat, |i: int| '0'),
            decreases pad - k,
        {
            out.push('0');
            k += 1;
            assert(out@ =~= old(out)@ + Seq::new(k as nat, |i: int| '0'));
        }
    }
    push_all(out, digits.as_slice());
    assert(out@ =~= old(out)@ + dec_pad(n as nat, w as nat));
}

// ───────────────────────── UTF-8 lengths ─────────────────────────

/// The number of bytes UTF-8 uses for `c`.
pub open spec fn utf8_width(c: char) -> nat {
    if (c as u32) < 0x80 {
        1
    } else if (c as u32) < 0x800 {
        2
    } else if (c as u32) < 0x10000 {
        3
    } else {
        4
    }
}

/// The UTF-8 length of `s` in bytes (`str::len`).
pub open spec fn byte_len(s: Seq<char>) -> nat
    decreases s.len(),
{
    if s.len() == 0 {
        0
    } else {
        byte_len(s.drop_last()) + utf8_width(s.last())
    }
}

pub fn utf8_width_exec(c: char) -> (r: usize)
    ensures
        r as nat == utf8_width(c),
{
    let u = c as u32;
    if u < 0x80 {
        1
    } else if u < 0x800 {
        2
    } else if u < 0x10000 {
        3
    } else {
        4
    }
}

/// `str::len`: the length of `s` in UTF-8 bytes.
#[verifier::external_body]
pub(crate) fn str_byte_len(s: &str) -> (r: usize)
    ensures
        r as nat == byte_len(s@),
{
    s.len()
}

/// A text of some bytes has some characters.
pub proof fn lemma_byte_len_nonempty(s: Seq<char>)
    ensures
        byte_len(s) > 0 ==> s.len() > 0,
{
}

pub proof fn lemma_byte_len_take(s: Seq<char>, k: int)
    requires
        0 <= k <= s.len(),
    ensures
        byte_len(s.take(k)) <= byte_len(s),
        k < s.len() ==> byte_len(s.take(k + 1)) == byte_len(s.take(k)) + utf8_width(s[k]),
    decreases s.len() - k,
{
    if k < s.len() {
        lemma_byte_len_take(s, k + 1);
        assert(s.take(k + 1).drop_last() =~= s.take(k));
    } else {
        assert(s.take(k) =~= s);
    }
}

/// The number of bytes in `s[..k]` (a byte offset into the UTF-8 form of `s`).
pub fn byte_offset(s: &[char], k: usize) -> (r: usize)
    requires
        k <= s@.len(),
        byte_len(s@) <= usize::MAX,
    ensures
        r as nat == byte_len(s@.take(k as int)),
{
    let mut b: usize = 0;
    let mut i: usize = 0;
    assert(s@.take(0) =~= Seq::<char>::empty());
    while i < k
        invariant
            i <= k <= s@.len(),
            byte_len(s@) <= usize::MAX,
            b as nat == byte_len(s@.take(i as int)),
        decreases k - i,
    {
        proof {
            lemma_byte_len_take(s@, i as int);
            lemma_byte_len_take(s@, i + 1);
        }
        b = b + utf8_width_exec(s[i]);
        i += 1;
    }
    b
}

// ───────────────────────── ordering ─────────────────────────

/// `str` ordering (`<=`): lexicographic by code point, which is the byte order
/// of the UTF-8 forms.
pub open spec fn lex_le(a: Seq<char>, b: Seq<char>) -> bool
    decreases a.len(),
{
    if a.len() == 0 {
        true
    } else if b.len() == 0 {
        false
    } else if a[0] < b[0] {
        true
    } else if a[0] > b[0] {
        false
    } else {
        lex_le(a.drop_first(), b.drop_first())
    }
}

/// `lex_le` is total.
pub proof fn lemma_lex_total(a: Seq<char>, b: Seq<char>)
    ensures
        lex_le(a, b) || lex_le(b, a),
    decreases a.len(),
{
    if a.len() > 0 && b.len() > 0 && a[0] == b[0] {
        lemma_lex_total(a.drop_first(), b.drop_first());
    }
}

/// `lex_le` is transitive.
pub proof fn lemma_lex_trans(a: Seq<char>, b: Seq<char>, c: Seq<char>)
    requires
        lex_le(a, b),
        lex_le(b, c),
    ensures
        lex_le(a, c),
    decreases a.len(),
{
    if a.len() > 0 && b.len() > 0 && c.len() > 0 && a[0] == b[0] && b[0] == c[0] {
        lemma_lex_trans(a.drop_first(), b.drop_first(), c.drop_first());
    }
}

/// `lex_le` is antisymmetric.
pub proof fn lemma_lex_antisym(a: Seq<char>, b: Seq<char>)
    requires
        lex_le(a, b),
        lex_le(b, a),
    ensures
        a == b,
    decreases a.len(),
{
    if a.len() > 0 && b.len() > 0 {
        lemma_lex_antisym(a.drop_first(), b.drop_first());
        assert(a =~= seq![a[0]] + a.drop_first());
        assert(b =~= seq![b[0]] + b.drop_first());
    }
}

/// `a <= b` on strings.
pub fn lex_le_exec(a: &[char], b: &[char]) -> (r: bool)
    ensures
        r == lex_le(a@, b@),
{
    let mut i: usize = 0;
    assert(a@.skip(0) =~= a@);
    assert(b@.skip(0) =~= b@);
    while i < a.len()
        invariant
            i <= a@.len(),
            i <= b@.len(),
            lex_le(a@, b@) == lex_le(a@.skip(i as int), b@.skip(i as int)),
        decreases a@.len() - i,
    {
        if i == b.len() {
            return false;
        }
        let x = a[i];
        let y = b[i];
        if x < y {
            return true;
        }
        if x > y {
            return false;
        }
        assert(a@.skip(i as int).drop_first() =~= a@.skip(i + 1));
        assert(b@.skip(i as int).drop_first() =~= b@.skip(i + 1));
        i += 1;
    }
    true
}


/// Whether `s` takes more than `n` bytes in UTF-8 (`s.len() > n`).
pub fn byte_len_exceeds(s: &[char], n: usize) -> (r: bool)
    requires
        n < usize::MAX - 4,
    ensures
        r == (byte_len(s@) > n),
{
    let mut b: usize = 0;
    let mut i: usize = 0;
    assert(s@.take(0) =~= Seq::<char>::empty());
    while i < s.len()
        invariant
            i <= s@.len(),
            n < usize::MAX - 4,
            b <= n,
            b as nat == byte_len(s@.take(i as int)),
        decreases s@.len() - i,
    {
        proof {
            lemma_byte_len_take(s@, i as int);
        }
        b = b + utf8_width_exec(s[i]);
        i += 1;
        if b > n {
            proof {
                lemma_byte_len_take(s@, i as int);
            }
            return true;
        }
    }
    assert(s@.take(i as int) =~= s@);
    false
}

pub proof fn lemma_byte_len_take_mono(s: Seq<char>, k1: int, k2: int)
    requires
        0 <= k1 < k2 <= s.len(),
    ensures
        byte_len(s.take(k1)) < byte_len(s.take(k2)),
    decreases k2 - k1,
{
    lemma_byte_len_take(s, k1);
    if k1 + 1 < k2 {
        lemma_byte_len_take_mono(s, k1 + 1, k2);
    }
}

/// A prefix of `s` takes exactly `b` bytes: `b` is a character boundary.
pub open spec fn byte_boundary(s: Seq<char>, b: nat) -> bool {
    exists|k: int| 0 <= k <= s.len() && byte_len(#[trigger] s.take(k)) == b
}

/// The number of characters in the prefix of `s` that takes `b` bytes.
pub open spec fn boundary_index(s: Seq<char>, b: nat) -> int {
    choose|k: int| 0 <= k <= s.len() && byte_len(#[trigger] s.take(k)) == b
}

/// Finds the character index of byte offset `b`, if it is a boundary.
pub fn boundary_exec(s: &[char], b: usize) -> (r: Option<usize>)
    requires
        b < usize::MAX - 4,
    ensures
        match r {
            Some(k) => byte_boundary(s@, b as nat) && k == boundary_index(s@, b as nat),
            None => !byte_boundary(s@, b as nat),
        },
{
    let mut acc: usize = 0;
    let mut i: usize = 0;
    assert(s@.take(0) =~= Seq::<char>::empty());
    while i < s.len() && acc < b
        invariant
            i <= s@.len(),
            b < usize::MAX - 4,
            acc as nat == byte_len(s@.take(i as int)),
            i > 0 ==> byte_len(s@.take(i - 1)) < b,
            acc <= b + 4,
        decreases s@.len() - i,
    {
        proof {
            lemma_byte_len_take(s@, i as int);
        }
        acc = acc + utf8_width_exec(s[i]);
        i += 1;
    }
    if acc == b {
        assert(byte_boundary(s@, b as nat)) by {
            assert(byte_len(s@.take(i as int)) == b);
        }
        let ghost k = boundary_index(s@, b as nat);
        proof {
            if k < i {
                lemma_byte_len_take_mono(s@, k, i as int);
            } else if k > i {
                lemma_byte_len_take_mono(s@, i as int, k);
            }
        }
        Some(i)
    } else {
        assert(!byte_boundary(s@, b as nat)) by {
            if byte_boundary(s@, b as nat) {
                let k = choose|k: int| 0 <= k <= s@.len() && byte_len(#[trigger] s@.take(k)) == b;
                if k < i {
                    if k < i - 1 {
                        lemma_byte_len_take_mono(s@, k, i - 1);
                    }
                } else if k > i {
                    lemma_byte_len_take_mono(s@, i as int, k);
                }
            }
        }
        None
    }
}

/// The number of leading characters of `s` that fit in `b` bytes: the
/// character count of `str::floor_char_boundary(b)`.
pub open spec fn floor_chars(s: Seq<char>, b: nat) -> nat
    decreases s.len(),
{
    if s.len() == 0 || utf8_width(s[0]) > b {
        0
    } else {
        1 + floor_chars(s.drop_first(), (b - utf8_width(s[0])) as nat)
    }
}

/// How many leading characters of `s` fit in `b` bytes.
pub fn floor_chars_exec(s: &[char], b: usize) -> (r: usize)
    ensures
        r == floor_chars(s@, b as nat),
        r <= s@.len(),
{
    let mut i: usize = 0;
    let mut acc: usize = 0;
    assert(s@.skip(0) =~= s@);
    loop
        invariant
            i <= s@.len(),
            acc <= b,
            floor_chars(s@, b as nat) == i + floor_chars(s@.skip(i as int), (b - acc) as nat),
        decreases s@.len() - i,
    {
        if i >= s.len() {
            assert(s@.skip(i as int).len() == 0);
            return i;
        }
        let w = utf8_width_exec(s[i]);
        assert(s@.skip(i as int)[0] == s@[i as int]);
        if w > b - acc {
            return i;
        }
        assert(s@.skip(i as int).drop_first() =~= s@.skip(i + 1));
        acc = acc + w;
        i += 1;
    }
}

// ───────────────────────── sequences ─────────────────────────

/// The values of the `Some` entries of `s`, in order (`filter_map`).
pub open spec fn somes<A>(s: Seq<Option<A>>) -> Seq<A>
    decreases s.len(),
{
    if s.len() == 0 {
        seq![]
    } else {
        let r = somes(s.drop_last());
        match s.last() {
            Some(a) => r.push(a),
            None => r,
        }
    }
}

pub proof fn lemma_somes_push<A>(s: Seq<Option<A>>, x: Option<A>)
    ensures
        somes(s.push(x)) == match x {
            Some(a) => somes(s).push(a),
            None => somes(s),
        },
{
    assert(s.push(x).drop_last() =~= s);
}

/// Every value `somes` keeps is the value of some entry of `s`.
pub proof fn lemma_somes_from<A>(s: Seq<Option<A>>, j: int)
    requires
        0 <= j < somes(s).len(),
    ensures
        exists|i: int| 0 <= i < s.len() && s[i] == Some(somes(s)[j]),
    decreases s.len(),
{
    let r = somes(s.drop_last());
    if j < r.len() {
        lemma_somes_from(s.drop_last(), j);
        let i = choose|i: int| 0 <= i < s.drop_last().len() && s.drop_last()[i] == Some(r[j]);
        assert(s[i] == Some(somes(s)[j]));
    } else {
        assert(s[s.len() - 1] == Some(somes(s)[j]));
    }
}

/// `n` copies of `c` (`c.to_string().repeat(n)`).
pub open spec fn repeat(c: char, n: nat) -> Seq<char> {
    Seq::new(n, |i: int| c)
}

/// Appends `n` copies of `c`.
pub fn push_repeat(out: &mut Vec<char>, c: char, n: usize)
    ensures
        final(out)@ == old(out)@ + repeat(c, n as nat),
{
    let mut k: usize = 0;
    while k < n
        invariant
            k <= n,
            out@ == old(out)@ + repeat(c, k as nat),
        decreases n - k,
    {
        out.push(c);
        k += 1;
        assert(out@ =~= old(out)@ + repeat(c, k as nat));
    }
}


/// The index of the first whitespace character of `s` at or after `i`.
pub open spec fn first_ws_from(s: Seq<char>, i: int) -> Option<int>
    decreases s.len() - i,
{
    if i < 0 || i >= s.len() {
        None
    } else if is_ws(s[i]) {
        Some(i)
    } else {
        first_ws_from(s, i + 1)
    }
}

/// `str::split_once(char::is_whitespace)`: the text before the first
/// whitespace character and the text after it.
pub open spec fn split_once_ws(s: Seq<char>) -> Option<(Seq<char>, Seq<char>)> {
    match first_ws_from(s, 0) {
        Some(i) => Some((s.take(i), s.skip(i + 1))),
        None => None,
    }
}

pub proof fn lemma_first_ws_from(s: Seq<char>, i: int)
    requires
        0 <= i,
    ensures
        first_ws_from(s, i) matches Some(k) ==> i <= k < s.len() && is_ws(s[k]),
    decreases s.len() - i,
{
    if i < s.len() && !is_ws(s[i]) {
        lemma_first_ws_from(s, i + 1);
    }
}

/// The index of the first whitespace character of `s`.
pub fn first_ws_exec(s: &[char]) -> (r: Option<usize>)
    ensures
        match r {
            Some(k) => first_ws_from(s@, 0) == Some(k as int) && k < s@.len(),
            None => first_ws_from(s@, 0) is None,
        },
{
    let mut i: usize = 0;
    while i < s.len()
        invariant
            i <= s@.len(),
            first_ws_from(s@, 0) == first_ws_from(s@, i as int),
        decreases s@.len() - i,
    {
        if char_is_ws(s[i]) {
            return Some(i);
        }
        i += 1;
    }
    None
}

/// `str::split_once(char::is_whitespace)`.
pub fn split_once_ws_exec(s: &[char]) -> (r: Option<(Vec<char>, Vec<char>)>)
    ensures
        match r {
            Some((a, b)) => split_once_ws(s@) == Some((a@, b@)),
            None => split_once_ws(s@) is None,
        },
{
    let mut i: usize = 0;
    while i < s.len()
        invariant
            i <= s@.len(),
            first_ws_from(s@, 0) == first_ws_from(s@, i as int),
        decreases s@.len() - i,
    {
        if char_is_ws(s[i]) {
            let a = slice_of(s, 0, i);
            let b = slice_of(s, i + 1, s.len());
            assert(a@ =~= s@.take(i as int));
            assert(b@ =~= s@.skip(i + 1));
            return Some((a, b));
        }
        i += 1;
    }
    None
}

/// `String::from` on a copy of the characters, as an owned `String`.
pub fn to_string(v: &Vec<char>) -> (r: String)
    ensures
        r@ == v@,
{
    string_of(v.as_slice())
}

/// The characters of a `String`.
pub fn chars_of_string(s: &String) -> (r: Vec<char>)
    ensures
        r@ == s@,
{
    chars_of(s.as_str())
}


/// ASCII lower-casing (`char::to_ascii_lowercase`).
pub open spec fn ascii_lower(c: char) -> char {
    if 'A' <= c && c <= 'Z' {
        ((c as u32) + 32) as char
    } else {
        c
    }
}

pub fn ascii_lower_exec(c: char) -> (r: char)
    ensures
        r == ascii_lower(c),
{
    if 'A' <= c && c <= 'Z' {
        ((c as u8) + 32) as char
    } else {
        c
    }
}

/// `str::to_lowercase`: the full Unicode lower-case mapping of `s`, whose
/// tables this library does not restate.
pub uninterp spec fn lower_text(s: Seq<char>) -> Seq<char>;

/// `s` with each letter `A`-`Z` lowered.
pub open spec fn ascii_lowered(s: Seq<char>) -> Seq<char> {
    s.map_values(|c: char| ascii_lower(c))
}

/// Every character is ASCII.
pub open spec fn all_ascii(s: Seq<char>) -> bool {
    forall|i: int| 0 <= i < s.len() ==> (#[trigger] s[i]) <= '\x7f'
}

/// `str::to_lowercase`. What it returns is named `lower_text`; it depends on
/// the text alone. As std documents it, the result maps each character to
/// its lower case: an empty text stays empty, and an ASCII text has each
/// letter `A`-`Z` lowered and every other character kept. The Unicode
/// tables for other characters are not restated.
#[verifier::external_body]
pub(crate) fn to_lower(s: &str) -> (r: String)
    ensures
        r@ == lower_text(s@),
        s@.len() == 0 ==> r@.len() == 0,
        all_ascii(s@) ==> r@ == s@.map_values(|c: char| ascii_lower(c)),
{
    s.to_lowercase()
}

/// ASCII lower-casing keeps whitespace whitespace and anything else not.
proof fn lemma_ascii_lower_ws(c: char)
    ensures
        is_ws(ascii_lower(c)) == is_ws(c),
        ascii_lower(ascii_lower(c)) == ascii_lower(c),
        c <= '\x7f' ==> ascii_lower(c) <= '\x7f',
{
    if 'A' <= c && c <= 'Z' {
        let d = ((c as u32) + 32) as char;
        assert('a' <= d && d <= 'z');
    }
}

proof fn lemma_trim_start_lower(s: Seq<char>)
    ensures
        trim_start(s.map_values(|c: char| ascii_lower(c))) == trim_start(s).map_values(|c: char| ascii_lower(c)),
    decreases s.len(),
{
    let m = s.map_values(|c: char| ascii_lower(c));
    if s.len() > 0 {
        lemma_ascii_lower_ws(s[0]);
        assert(m[0] == ascii_lower(s[0]));
        if is_ws(s[0]) {
            assert(m.drop_first() =~= s.drop_first().map_values(|c: char| ascii_lower(c)));
            lemma_trim_start_lower(s.drop_first());
        }
    } else {
        assert(m =~= s);
    }
}

proof fn lemma_trim_end_lower(s: Seq<char>)
    ensures
        trim_end(s.map_values(|c: char| ascii_lower(c))) == trim_end(s).map_values(|c: char| ascii_lower(c)),
    decreases s.len(),
{
    let m = s.map_values(|c: char| ascii_lower(c));
    if s.len() > 0 {
        lemma_ascii_lower_ws(s.last());
        assert(m.last() == ascii_lower(s.last()));
        if is_ws(s.last()) {
            assert(m.drop_last() =~= s.drop_last().map_values(|c: char| ascii_lower(c)));
            lemma_trim_end_lower(s.drop_last());
        }
    } else {
        assert(m =~= s);
    }
}

proof fn lemma_trim_start_ascii(s: Seq<char>)
    requires
        all_ascii(s),
    ensures
        all_ascii(trim_start(s)),
    decreases s.len(),
{
    if s.len() > 0 && is_ws(s[0]) {
        assert forall|i: int| 0 <= i < s.drop_first().len() implies (#[trigger] s.drop_first()[i]) <= '\x7f' by {
            assert(s.drop_first()[i] == s[i + 1]);
        }
        lemma_trim_start_ascii(s.drop_first());
    }
}

proof fn lemma_trim_end_ascii(s: Seq<char>)
    requires
        all_ascii(s),
    ensures
        all_ascii(trim_end(s)),
    decreases s.len(),
{
    if s.len() > 0 && is_ws(s.last()) {
        assert forall|i: int| 0 <= i < s.drop_last().len() implies (#[trigger] s.drop_last()[i]) <= '\x7f' by {
            assert(s.drop_last()[i] == s[i]);
        }
        lemma_trim_end_ascii(s.drop_last());
    }
}

/// Trimming and ASCII lower-casing: trimming keeps an ASCII text ASCII, the
/// two steps can be taken in either order, and lower-casing twice is
/// lower-casing once.
pub proof fn lemma_trim_ascii_lower(s: Seq<char>)
    ensures
        all_ascii(s) ==> all_ascii(trim(s)),
        all_ascii(s) ==> all_ascii(s.map_values(|c: char| ascii_lower(c))),
        trim(s.map_values(|c: char| ascii_lower(c))) == trim(s).map_values(|c: char| ascii_lower(c)),
        trim(s).map_values(|c: char| ascii_lower(c)).map_values(|c: char| ascii_lower(c)) == trim(s).map_values(
            |c: char| ascii_lower(c),
        ),
{
    lemma_trim_start_lower(s);
    lemma_trim_end_lower(trim_start(s));
    if all_ascii(s) {
        lemma_trim_start_ascii(s);
        lemma_trim_end_ascii(trim_start(s));
        let m = s.map_values(|c: char| ascii_lower(c));
        assert forall|i: int| 0 <= i < m.len() implies (#[trigger] m[i]) <= '\x7f' by {
            lemma_ascii_lower_ws(s[i]);
        }
    }
    let t = trim(s).map_values(|c: char| ascii_lower(c));
    let tt = t.map_values(|c: char| ascii_lower(c));
    assert forall|i: int| 0 <= i < t.len() implies #[trigger] tt[i] == t[i] by {
        lemma_ascii_lower_ws(trim(s)[i]);
    }
    assert(t.map_values(|c: char| ascii_lower(c)) =~= t);
}

/// `str::eq_ignore_ascii_case`: equal after ASCII lower-casing.
pub open spec fn eq_ignore_ascii_case(a: Seq<char>, b: Seq<char>) -> bool {
    a.len() == b.len() && forall|i: int| 0 <= i < a.len() ==> ascii_lower(#[trigger] a[i]) == ascii_lower(b[i])
}

pub fn eq_ignore_ascii_case_exec(a: &[char], b: &str) -> (r: bool)
    ensures
        r == eq_ignore_ascii_case(a@, b@),
{
    let bv = chars_of(b);
    if a.len() != bv.len() {
        return false;
    }
    let mut i: usize = 0;
    while i < a.len()
        invariant
            i <= a@.len(),
            a@.len() == bv@.len(),
            bv@ == b@,
            forall|j: int| 0 <= j < i ==> ascii_lower(#[trigger] a@[j]) == ascii_lower(bv@[j]),
        decreases a@.len() - i,
    {
        if ascii_lower_exec(a[i]) != ascii_lower_exec(bv[i]) {
            return false;
        }
        i += 1;
    }
    true
}

/// How many times `c` occurs in `s`.
pub open spec fn count_char(s: Seq<char>, c: char) -> nat
    decreases s.len(),
{
    if s.len() == 0 {
        0
    } else {
        count_char(s.drop_last(), c) + if s.last() == c {
            1nat
        } else {
            0nat
        }
    }
}

pub proof fn lemma_count_char_bound(s: Seq<char>, c: char)
    ensures
        count_char(s, c) <= s.len(),
    decreases s.len(),
{
    if s.len() > 0 {
        lemma_count_char_bound(s.drop_last(), c);
    }
}

pub fn count_char_exec(s: &[char], c: char) -> (r: usize)
    ensures
        r == count_char(s@, c),
{
    let mut n: usize = 0;
    let mut i: usize = 0;
    assert(s@.take(0) =~= Seq::<char>::empty());
    while i < s.len()
        invariant
            i <= s@.len(),
            n == count_char(s@.take(i as int), c),
        decreases s@.len() - i,
    {
        assert(s@.take(i + 1).drop_last() =~= s@.take(i as int));
        proof {
            lemma_count_char_bound(s@.take(i as int), c);
        }
        if s[i] == c {
            n += 1;
        }
        i += 1;
    }
    assert(s@.take(s@.len() as int) =~= s@);
    n
}

/// A line without the `\r` of a `\r\n` ending.
pub open spec fn strip_cr(l: Seq<char>) -> Seq<char> {
    if l.len() > 0 && l.last() == '\r' {
        l.drop_last()
    } else {
        l
    }
}

/// Reading `s` line by line: the finished lines and the line being read.
pub open spec fn line_state(s: Seq<char>) -> (Seq<Seq<char>>, Seq<char>)
    decreases s.len(),
{
    if s.len() == 0 {
        (seq![], seq![])
    } else {
        let (done, cur) = line_state(s.drop_last());
        if s.last() == '\n' {
            (done.push(strip_cr(cur)), seq![])
        } else {
            (done, cur.push(s.last()))
        }
    }
}

/// `str::lines`: split at `\n` (dropping a `\r` before it), with no empty
/// line after a final `\n`.
pub open spec fn lines(s: Seq<char>) -> Seq<Seq<char>> {
    let (done, cur) = line_state(s);
    if cur.len() == 0 {
        done
    } else {
        done.push(cur)
    }
}

/// `str::lines`, collected.
pub fn lines_exec(s: &[char]) -> (r: Vec<Vec<char>>)
    ensures
        r.deep_view() == lines(s@),
{
    let mut done: Vec<Vec<char>> = Vec::new();
    let mut cur: Vec<char> = Vec::new();
    let mut i: usize = 0;
    assert(s@.take(0) =~= Seq::<char>::empty());
    assert(done.deep_view() =~= Seq::<Seq<char>>::empty());
    while i < s.len()
        invariant
            i <= s@.len(),
            (done.deep_view(), cur@) == line_state(s@.take(i as int)),
        decreases s@.len() - i,
    {
        let c = s[i];
        assert(s@.take(i + 1).drop_last() =~= s@.take(i as int));
        assert(s@.take(i + 1).last() == c);
        if c == '\n' {
            let n = cur.len();
            if n > 0 && cur[n - 1] == '\r' {
                let t = slice_of(cur.as_slice(), 0, n - 1);
                assert(t@ =~= cur@.drop_last());
                push_word(&mut done, t);
            } else {
                push_word(&mut done, cur);
            }
            cur = Vec::new();
            assert(cur@ =~= Seq::<char>::empty());
        } else {
            cur.push(c);
        }
        i += 1;
    }
    assert(s@.take(s@.len() as int) =~= s@);
    if cur.len() > 0 {
        push_word(&mut done, cur);
    }
    done
}


/// `input.strip_prefix(prefix).unwrap_or("").trim()`: what follows a
/// command word, trimmed, or nothing when `input` does not start with it.
pub open spec fn command_arg(input: Seq<char>, prefix: Seq<char>) -> Seq<char> {
    if starts_with(input, prefix) {
        trim(input.skip(prefix.len() as int))
    } else {
        seq![]
    }
}

/// `input.strip_prefix(prefix).unwrap_or("").trim()`.
pub fn command_arg_exec(input: &str, prefix: &str) -> (r: Vec<char>)
    ensures
        r@ == command_arg(input@, prefix@),
{
    let v = chars_of(input);
    let p = chars_of(prefix);
    if starts_with_exec(v.as_slice(), p.as_slice()) {
        let rest = slice_of(v.as_slice(), p.len(), v.len());
        assert(rest@ =~= v@.skip(p@.len() as int));
        trim_vec(rest.as_slice())
    } else {
        Vec::new()
    }
}


/// `str::rfind(c)`: the last index of `c` in `s`.
pub open spec fn last_index(s: Seq<char>, c: char) -> Option<int>
    decreases s.len(),
{
    if s.len() == 0 {
        None
    } else if s.last() == c {
        Some(s.len() - 1)
    } else {
        last_index(s.drop_last(), c)
    }
}

pub fn last_index_exec(s: &[char], c: char) -> (r: Option<usize>)
    ensures
        match r {
            Some(k) => last_index(s@, c) == Some(k as int) && k < s@.len(),
            None => last_index(s@, c) is None,
        },
{
    let mut j = s.len();
    assert(s@.take(j as int) =~= s@);
    while j > 0
        invariant
            j <= s@.len(),
            last_index(s@, c) == last_index(s@.take(j as int), c),
        decreases j,
    {
        if s[j - 1] == c {
            return Some(j - 1);
        }
        assert(s@.take(j as int).drop_last() =~= s@.take(j - 1));
        j -= 1;
    }
    None
}


/// `str::split(p)` with a text pattern: the pieces between the
/// non-overlapping occurrences of `p`, read from the left.
pub open spec fn split_str(s: Seq<char>, p: Seq<char>) -> Seq<Seq<char>>
    decreases s.len(),
{
    if p.len() == 0 {
        seq![s]
    } else {
        match find(s, p) {
            None => seq![s],
            Some(k) => if k < 0 || k + p.len() > s.len() {
                seq![s]
            } else {
                seq![s.take(k)] + split_str(s.skip(k + p.len()), p)
            },
        }
    }
}

/// `str::split(p)`, collected, for a non-empty pattern.
pub fn split_str_exec(s: &[char], p: &[char]) -> (r: Vec<Vec<char>>)
    requires
        p@.len() > 0,
    ensures
        r.deep_view() == split_str(s@, p@),
{
    let mut out: Vec<Vec<char>> = Vec::new();
    let mut rest: Vec<char> = slice_of(s, 0, s.len());
    assert(rest@ =~= s@);
    assert(out.deep_view() =~= Seq::<Seq<char>>::empty());
    loop
        invariant_except_break
            split_str(s@, p@) == out.deep_view() + split_str(rest@, p@),
        invariant
            p@.len() > 0,
        ensures
            split_str(s@, p@) == out.deep_view(),
        decreases rest@.len(),
    {
        proof {
            lemma_find_from(rest@, p@, 0);
        }
        let n = rest.len();
        match find_exec(rest.as_slice(), p) {
            None => {
                let ghost before = out.deep_view();
                let ghost rv = rest@;
                push_word(&mut out, rest);
                assert(out.deep_view() =~= before + split_str(rv, p@));
                break;
            },
            Some(k) => {
                let piece = slice_of(rest.as_slice(), 0, k);
                let next = slice_of(rest.as_slice(), k + p.len(), n);
                assert(piece@ =~= rest@.take(k as int));
                assert(next@ =~= rest@.skip(k + p@.len()));
                let ghost before = out.deep_view();
                let ghost rv = rest@;
                push_word(&mut out, piece);
                assert(before + split_str(rv, p@) =~= out.deep_view() + split_str(next@, p@));
                rest = next;
            },
        }
    }
    out
}


// ───────────────────────── reading back what was written ─────────────────────────

proof fn lemma_digit_char(d: nat)
    requires
        d < 10,
    ensures
        is_digit(digit_char(d)),
        digit_val(digit_char(d)) == d,
{
}

/// A decimal numeral is all digits and reads back as its number.
pub proof fn lemma_dec_digits(n: nat)
    ensures
        all_digits(dec(n)),
        digits_value(dec(n)) == n,
        dec(n).len() >= 1,
    decreases n,
{
    if n < 10 {
        lemma_digit_char(n);
        assert(dec(n).drop_last() =~= Seq::<char>::empty());
        assert(dec(n).last() == digit_char(n));
        assert(digits_value(dec(n)) == digits_value(dec(n).drop_last()) * 10 + digit_val(dec(n).last()));
        assert(digits_value(Seq::<char>::empty()) == 0);
    } else {
        lemma_dec_digits(n / 10);
        lemma_digit_char(n % 10);
        assert(dec(n).drop_last() =~= dec(n / 10));
        assert(dec(n).last() == digit_char(n % 10));
        assert(digits_value(dec(n)) == digits_value(dec(n).drop_last()) * 10 + digit_val(dec(n).last()));
        assert((n / 10) * 10 + n % 10 == n);
        assert forall|i: int| 0 <= i < dec(n).len() implies is_digit(#[trigger] dec(n)[i]) by {
            if i < dec(n).len() - 1 {
                assert(dec(n)[i] == dec(n / 10)[i]);
            }
        }
    }
}

proof fn lemma_leading_zero(s: Seq<char>)
    ensures
        digits_value(seq!['0'] + s) == digits_value(s),
    decreases s.len(),
{
    let z = seq!['0'] + s;
    if s.len() == 0 {
        assert(z.drop_last() =~= Seq::<char>::empty());
        assert(z.last() == '0');
        assert(digits_value(z) == digits_value(z.drop_last()) * 10 + digit_val(z.last()));
        assert(digits_value(Seq::<char>::empty()) == 0);
        assert(digits_value(s) == 0);
    } else {
        lemma_leading_zero(s.drop_last());
        assert(z.drop_last() =~= seq!['0'] + s.drop_last());
        assert(z.last() == s.last());
        assert(digits_value(z) == digits_value(z.drop_last()) * 10 + digit_val(z.last()));
    }
}

proof fn lemma_zeros_prefix(k: nat, s: Seq<char>)
    ensures
        digits_value(Seq::new(k, |i: int| '0') + s) == digits_value(s),
        all_digits(s) ==> all_digits(Seq::new(k, |i: int| '0') + s),
    decreases k,
{
    if k > 0 {
        lemma_zeros_prefix((k - 1) as nat, s);
        let z = Seq::new((k - 1) as nat, |i: int| '0');
        assert(Seq::new(k, |i: int| '0') + s =~= seq!['0'] + (z + s));
        lemma_leading_zero(z + s);
        if all_digits(s) {
            assert forall|i: int| 0 <= i < (seq!['0'] + (z + s)).len() implies is_digit(
                #[trigger] (seq!['0'] + (z + s))[i],
            ) by {
                if i > 0 {
                    assert((seq!['0'] + (z + s))[i] == (z + s)[i - 1]);
                }
            }
        }
    } else {
        assert(Seq::new(0, |i: int| '0') + s =~= s);
    }
}

/// A zero-padded numeral is all digits and reads back as its number.
pub proof fn lemma_dec_pad_digits(n: nat, w: nat)
    ensures
        all_digits(dec_pad(n, w)),
        digits_value(dec_pad(n, w)) == n,
        dec_pad(n, w).len() >= 1,
        dec_pad(n, w).len() >= w,
{
    lemma_dec_digits(n);
    let d = dec(n);
    if d.len() < w {
        lemma_zeros_prefix((w - d.len()) as nat, d);
    }
}

proof fn lemma_split_state_append(p: Seq<char>, q: Seq<char>, sep: char)
    requires
        forall|j: int| 0 <= j < q.len() ==> q[j] != sep,
    ensures
        split_state(p + q, sep) == (split_state(p, sep).0, split_state(p, sep).1 + q),
    decreases q.len(),
{
    if q.len() == 0 {
        assert(p + q =~= p);
        assert(split_state(p, sep).1 + q =~= split_state(p, sep).1);
    } else {
        lemma_split_state_append(p, q.drop_last(), sep);
        assert((p + q).drop_last() =~= p + q.drop_last());
        assert(q[q.len() - 1] != sep);
        assert(split_state(p, sep).1 + q =~= (split_state(p, sep).1 + q.drop_last()).push(q.last()));
    }
}

/// Splitting `a-b-c` at `-` gives back the three parts when none holds a `-`.
pub proof fn lemma_split_three(a: Seq<char>, b: Seq<char>, c: Seq<char>, sep: char)
    requires
        forall|j: int| 0 <= j < a.len() ==> a[j] != sep,
        forall|j: int| 0 <= j < b.len() ==> b[j] != sep,
        forall|j: int| 0 <= j < c.len() ==> c[j] != sep,
    ensures
        split_on(a + seq![sep] + b + seq![sep] + c, sep) == seq![a, b, c],
{
    let e = Seq::<char>::empty();
    lemma_split_state_append(e, a, sep);
    assert(e + a =~= a);
    assert(split_state(e, sep) == (Seq::<Seq<char>>::empty(), e));
    let s1 = a + seq![sep];
    assert(s1.drop_last() =~= a);
    assert(split_state(s1, sep) == (seq![a], e)) by {
        assert(e + a =~= a);
    }
    lemma_split_state_append(s1, b, sep);
    let s2 = s1 + b + seq![sep];
    assert(s2.drop_last() =~= s1 + b);
    assert(e + b =~= b);
    lemma_split_state_append(s2, c, sep);
    assert(e + c =~= c);
    assert(a + seq![sep] + b + seq![sep] + c =~= s2 + c);
    assert(seq![a].push(b).push(c) =~= seq![a, b, c]);
}

/// No digit is a dash.
pub proof fn lemma_digits_no_dash(s: Seq<char>)
    requires
        all_digits(s),
    ensures
        forall|j: int| 0 <= j < s.len() ==> s[j] != '-',
{
    assert forall|j: int| 0 <= j < s.len() implies s[j] != '-' by {
        assert(is_digit(s[j]));
    }
}


/// A command's subcommand and the rest: the text up to the first
/// whitespace, and what follows it trimmed (the whole text and nothing
/// when it has no whitespace).
pub open spec fn subcommand_of(args: Seq<char>) -> (Seq<char>, Seq<char>) {
    match split_once_ws(args) {
        Some((s, r)) => (s, trim(r)),
        None => (args, seq![]),
    }
}

/// Split a command's arguments into its subcommand and the rest.
pub fn split_subcommand(args: &str) -> (r: (String, String))
    ensures
        (r.0@, r.1@) == subcommand_of(args@),
{
    let v = chars_of(args);
    match split_once_ws_exec(v.as_slice()) {
        Some((s, rest)) => (string_of(s.as_slice()), string_of(trim_vec(rest.as_slice()).as_slice())),
        None => {
            let e: Vec<char> = Vec::new();
            (string_of(v.as_slice()), string_of(e.as_slice()))
        },
    }
}

} // verus!
