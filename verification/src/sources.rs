//! The reporter's source database: entries, search, editing, and the beat
//! distribution of the network.
use vstd::prelude::*;
use crate::text::{
    lemma_lex_total, lemma_lex_trans, lex_le, lex_le_exec, parse_uint, parse_uint_exec, trim, trim_vec, chars_of, contains, contains_exec, eq_str, find, find_char_from, join, join_exec,
    lemma_find_from, lower_text, push_all, push_str, replace_all, replace_exec, slice_of,
    split_ws, string_of, to_lower, words, all_ascii, ascii_lowered,
};

verus! {

/// Where the source database is kept.
pub const SOURCES_FILE: &'static str = ".journalist/sources.json";

/// One source of the database. Each field is the stored text, or `None`
/// when the entry has no text under that name.
#[derive(Clone, Debug)]
pub struct Source {
    pub name: Option<String>,
    pub org: Option<String>,
    pub contact: Option<String>,
    pub note: Option<String>,
    pub beat: Option<String>,
}

pub struct SourceV {
    pub name: Option<Seq<char>>,
    pub org: Option<Seq<char>>,
    pub contact: Option<Seq<char>>,
    pub note: Option<Seq<char>>,
    pub beat: Option<Seq<char>>,
}

pub open spec fn ov(o: Option<String>) -> Option<Seq<char>> {
    match o {
        Some(s) => Some(s@),
        None => None,
    }
}

impl View for Source {
    type V = SourceV;

    open spec fn view(&self) -> SourceV {
        SourceV {
            name: ov(self.name),
            org: ov(self.org),
            contact: ov(self.contact),
            note: ov(self.note),
            beat: ov(self.beat),
        }
    }
}

pub open spec fn sources_view(s: Seq<Source>) -> Seq<SourceV> {
    s.map_values(|x: Source| x@)
}

/// A field's text, or nothing (`as_str().unwrap_or("")`).
pub open spec fn text_or_empty(o: Option<Seq<char>>) -> Seq<char> {
    match o {
        Some(s) => s,
        None => seq![],
    }
}

fn text_or_empty_exec(o: &Option<String>) -> (r: Vec<char>)
    ensures
        r@ == text_or_empty(ov(*o)),
{
    match o {
        Some(s) => chars_of(s.as_str()),
        None => Vec::new(),
    }
}

/// The five fields of a source, joined by spaces.
pub open spec fn search_text(s: SourceV) -> Seq<char> {
    text_or_empty(s.name) + " "@ + text_or_empty(s.org) + " "@ + text_or_empty(s.contact) + " "@
        + text_or_empty(s.note) + " "@ + text_or_empty(s.beat)
}

/// Check whether a source entry matches a query (case-insensitive).
pub fn source_matches(source: &Source, query_lower: &str) -> (r: bool)
    ensures
        r == contains(lower_text(search_text(source@)), query_lower@),
        all_ascii(search_text(source@)) ==> r == contains(ascii_lowered(search_text(source@)), query_lower@),
{
    let mut t = text_or_empty_exec(&source.name);
    push_str(&mut t, " ");
    push_all(&mut t, text_or_empty_exec(&source.org).as_slice());
    push_str(&mut t, " ");
    push_all(&mut t, text_or_empty_exec(&source.contact).as_slice());
    push_str(&mut t, " ");
    push_all(&mut t, text_or_empty_exec(&source.note).as_slice());
    push_str(&mut t, " ");
    push_all(&mut t, text_or_empty_exec(&source.beat).as_slice());
    assert(t@ =~= search_text(source@));
    let ts = string_of(t.as_slice());
    let low = to_lower(ts.as_str());
    let lv = chars_of(low.as_str());
    let qv = chars_of(query_lower);
    contains_exec(lv.as_slice(), qv.as_slice())
}

/// Whether a source is under the beat `beat_lower` (its beat lower-cased,
/// compared whole).
pub fn beat_matches(source: &Source, beat_lower: &str) -> (r: bool)
    ensures
        r == (lower_text(text_or_empty(source@.beat)) == beat_lower@),
        all_ascii(text_or_empty(source@.beat)) ==> r == (ascii_lowered(text_or_empty(source@.beat)) == beat_lower@),
{
    let b = text_or_empty_exec(&source.beat);
    let bs = string_of(b.as_slice());
    let low = to_lower(bs.as_str());
    let lv = chars_of(low.as_str());
    eq_str(lv.as_slice(), beat_lower)
}

/// The beat given by `--beat <word>` among the words (the last one given).
pub open spec fn beat_from(ws: Seq<Seq<char>>, i: int, beat: Seq<char>) -> Seq<char>
    decreases ws.len() - i,
{
    if i < 0 || i >= ws.len() {
        beat
    } else if ws[i] == "--beat"@ && i + 1 < ws.len() {
        beat_from(ws, i + 2, ws[i + 1])
    } else {
        beat_from(ws, i + 1, beat)
    }
}

/// What `extract_beat_option(args)` returns: the beat, and the arguments
/// without `--beat <beat>` with their words joined by single spaces (the
/// arguments as given when there is no beat).
pub open spec fn beat_option(args: Seq<char>) -> (Seq<char>, Seq<char>) {
    let beat = beat_from(words(args), 0, seq![]);
    if beat.len() == 0 {
        (beat, args)
    } else {
        (beat, join(words(replace_all(args, "--beat "@ + beat, seq![])), seq![' ']))
    }
}

/// Extract `--beat <value>` from args string, returning (beat, remaining_args).
pub fn extract_beat_option(args: &str) -> (r: (String, String))
    ensures
        (r.0@, r.1@) == beat_option(args@),
{
    let a = chars_of(args);
    let ws = split_ws(a.as_slice());
    let ghost wv = ws.deep_view();
    let mut beat: Vec<char> = Vec::new();
    let mut i: usize = 0;
    proof {
        reveal_strlit("--beat");
    }
    while i < ws.len()
        invariant
            i <= ws@.len() + 1,
            wv == ws.deep_view(),
            beat_from(wv, 0, seq![]) == beat_from(wv, i as int, beat@),
        decreases ws@.len() + 1 - i,
    {
        assert(ws[i as int]@ == wv[i as int]);
        if eq_str(ws[i].as_slice(), "--beat") && i + 1 < ws.len() {
            assert(ws[i + 1]@ == wv[i + 1]);
            beat = slice_of(ws[i + 1].as_slice(), 0, ws[i + 1].len());
            assert(beat@ =~= wv[i + 1]);
            i += 2;
        } else {
            i += 1;
        }
    }
    if beat.len() == 0 {
        (string_of(&[]), string_of(a.as_slice()))
    } else {
        let mut pat = chars_of("--beat ");
        push_all(&mut pat, beat.as_slice());
        let e: Vec<char> = Vec::new();
        let replaced = replace_exec(a.as_slice(), pat.as_slice(), e.as_slice());
        assert(e@ =~= Seq::<char>::empty());
        let rw = split_ws(replaced.as_slice());
        let joined = join_exec(&rw, &[' ']);
        assert(seq![' '] =~= [' ']@);
        (string_of(beat.as_slice()), string_of(joined.as_slice()))
    }
}

/// `str::splitn(n, c)`: at most `n` pieces, the last keeping the rest.
pub open spec fn splitn_char(s: Seq<char>, c: char, n: nat) -> Seq<Seq<char>>
    decreases n,
{
    if n <= 1 {
        seq![s]
    } else {
        match find(s, seq![c]) {
            None => seq![s],
            Some(k) => if k < 0 || k >= s.len() {
                seq![s]
            } else {
                seq![s.take(k)] + splitn_char(s.skip(k + 1), c, (n - 1) as nat)
            },
        }
    }
}

pub fn splitn_char_exec(s: &[char], c: char, n: usize) -> (r: Vec<Vec<char>>)
    ensures
        r.deep_view() == splitn_char(s@, c, n as nat),
{
    let mut out: Vec<Vec<char>> = Vec::new();
    let mut rest: Vec<char> = slice_of(s, 0, s.len());
    let mut m = n;
    assert(rest@ =~= s@);
    assert(out.deep_view() =~= Seq::<Seq<char>>::empty());
    loop
        invariant_except_break
            splitn_char(s@, c, n as nat) == out.deep_view() + splitn_char(rest@, c, m as nat),
        ensures
            splitn_char(s@, c, n as nat) == out.deep_view(),
        decreases m,
    {
        let ghost before = out.deep_view();
        let ghost rv = rest@;
        if m <= 1 {
            crate::text::push_word(&mut out, rest);
            assert(out.deep_view() =~= before + splitn_char(rv, c, m as nat));
            break;
        }
        proof {
            lemma_find_from(rest@, seq![c], 0);
        }
        match find_char_from(rest.as_slice(), c, 0) {
            None => {
                crate::text::push_word(&mut out, rest);
                assert(out.deep_view() =~= before + splitn_char(rv, c, m as nat));
                break;
            },
            Some(k) => {
                let n2 = rest.len();
                let piece = slice_of(rest.as_slice(), 0, k);
                let next = slice_of(rest.as_slice(), k + 1, n2);
                assert(piece@ =~= rv.take(k as int));
                assert(next@ =~= rv.skip(k + 1));
                crate::text::push_word(&mut out, piece);
                assert(before + splitn_char(rv, c, m as nat) =~= out.deep_view() + splitn_char(
                    next@,
                    c,
                    (m - 1) as nat,
                ));
                rest = next;
                m = m - 1;
            },
        }
    }
    out
}

/// What `/sources add <args>` stores: name, organisation and contact from
/// the first three space-separated fields, the rest as the note and the
/// `--beat` value as the beat; none with fewer than three fields.
pub open spec fn new_source_of(args: Seq<char>) -> Option<SourceV> {
    let (beat, rem) = beat_option(args);
    let p = splitn_char(rem, ' ', 4);
    if p.len() < 3 {
        None
    } else {
        Some(
            SourceV {
                name: Some(p[0]),
                org: Some(p[1]),
                contact: Some(p[2]),
                note: Some(
                    if p.len() > 3 {
                        p[3]
                    } else {
                        seq![]
                    },
                ),
                beat: Some(beat),
            },
        )
    }
}

/// The entry `/sources add <args>` creates, or `None` when the name,
/// organisation and contact are not all given.
pub fn new_source(args: &str) -> (r: Option<Source>)
    ensures
        match r {
            Some(s) => new_source_of(args@) == Some(s@),
            None => new_source_of(args@) is None,
        },
{
    let (beat, rem) = extract_beat_option(args);
    let rv = chars_of(rem.as_str());
    let p = splitn_char_exec(rv.as_slice(), ' ', 4);
    let ghost pv = p.deep_view();
    if p.len() < 3 {
        return None;
    }
    assert(p[0]@ == pv[0]);
    assert(p[1]@ == pv[1]);
    assert(p[2]@ == pv[2]);
    let note = if p.len() > 3 {
        assert(p[3]@ == pv[3]);
        string_of(p[3].as_slice())
    } else {
        let e: Vec<char> = Vec::new();
        assert(e@ =~= Seq::<char>::empty());
        string_of(e.as_slice())
    };
    Some(
        Source {
            name: Some(string_of(p[0].as_slice())),
            org: Some(string_of(p[1].as_slice())),
            contact: Some(string_of(p[2].as_slice())),
            note: Some(note),
            beat: Some(beat),
        },
    )
}

// ───────────────────────── remove and edit ─────────────────────────

/// Why a numbered source could not be changed.
#[derive(Debug, Clone, Copy, PartialEq, Eq, Structural)]
pub enum SourceError {
    /// `/sources edit` without a number, a field and a value.
    Usage,
    /// The number is not a whole number from 1 up.
    InvalidNumber,
    /// The field is not one of name, org, contact, note, beat.
    UnknownField,
    /// There is no source with that number.
    OutOfRange,
}

/// A 1-based number read from `arg`, checked against `len` sources.
pub open spec fn source_number(arg: Seq<char>, len: nat) -> Result<nat, SourceError> {
    match parse_uint(arg, usize::MAX as nat) {
        Some(n) => if n >= 1 {
            if n > len {
                Err(SourceError::OutOfRange)
            } else {
                Ok(n)
            }
        } else {
            Err(SourceError::InvalidNumber)
        },
        None => Err(SourceError::InvalidNumber),
    }
}

/// Remove the source numbered `arg` (1-based); returns it.
pub fn remove_source(sources: &mut Vec<Source>, arg: &str) -> (r: Result<Source, SourceError>)
    ensures
        match source_number(arg@, old(sources)@.len()) {
            Ok(n) => r matches Ok(s) && s@ == old(sources)@[n - 1]@ && sources_view(final(sources)@)
                == sources_view(old(sources)@).remove(n - 1),
            Err(e) => r == Err::<Source, SourceError>(e) && final(sources)@ == old(sources)@,
        },
{
    let av = chars_of(arg);
    let n = match parse_uint_exec(av.as_slice(), usize::MAX as u64) {
        Some(n) => n,
        None => return Err(SourceError::InvalidNumber),
    };
    if n < 1 {
        return Err(SourceError::InvalidNumber);
    }
    if n > sources.len() as u64 {
        return Err(SourceError::OutOfRange);
    }
    let ghost before = sources_view(sources@);
    let removed = sources.remove((n - 1) as usize);
    assert(sources_view(sources@) =~= before.remove(n - 1));
    Ok(removed)
}

/// The fields `/sources edit` may set.
pub open spec fn valid_field(f: Seq<char>) -> bool {
    f == "name"@ || f == "org"@ || f == "contact"@ || f == "note"@ || f == "beat"@
}

/// A source with `field` set to `value`.
pub open spec fn with_field(s: SourceV, field: Seq<char>, value: Seq<char>) -> SourceV {
    if field == "name"@ {
        SourceV { name: Some(value), ..s }
    } else if field == "org"@ {
        SourceV { org: Some(value), ..s }
    } else if field == "contact"@ {
        SourceV { contact: Some(value), ..s }
    } else if field == "note"@ {
        SourceV { note: Some(value), ..s }
    } else {
        SourceV { beat: Some(value), ..s }
    }
}

/// What `/sources edit <number> <field> <value>` does to `ss`: the error,
/// or the sources with that field of that source set.
pub open spec fn edited(ss: Seq<SourceV>, args: Seq<char>) -> Result<Seq<SourceV>, SourceError> {
    let p = splitn_char(args, ' ', 3);
    if p.len() < 3 {
        Err(SourceError::Usage)
    } else {
        match parse_uint(p[0], usize::MAX as nat) {
            Some(n) => if n < 1 {
                Err(SourceError::InvalidNumber)
            } else if !valid_field(p[1]) {
                Err(SourceError::UnknownField)
            } else if n > ss.len() || ss.len() == 0 {
                Err(SourceError::OutOfRange)
            } else {
                Ok(ss.update(n - 1, with_field(ss[n - 1], p[1], p[2])))
            },
            None => Err(SourceError::InvalidNumber),
        }
    }
}

/// Set a field of the source numbered in `args` (`<number> <field> <value>`).
pub fn edit_source(sources: &mut Vec<Source>, args: &str) -> (r: Result<(), SourceError>)
    ensures
        match edited(sources_view(old(sources)@), args@) {
            Ok(ss) => r is Ok && sources_view(final(sources)@) == ss,
            Err(e) => r == Err::<(), SourceError>(e) && final(sources)@ == old(sources)@,
        },
{
    let av = chars_of(args);
    let p = splitn_char_exec(av.as_slice(), ' ', 3);
    let ghost pv = p.deep_view();
    if p.len() < 3 {
        return Err(SourceError::Usage);
    }
    assert(p[0]@ == pv[0]);
    assert(p[1]@ == pv[1]);
    assert(p[2]@ == pv[2]);
    let n = match parse_uint_exec(p[0].as_slice(), usize::MAX as u64) {
        Some(n) => n,
        None => return Err(SourceError::InvalidNumber),
    };
    if n < 1 {
        return Err(SourceError::InvalidNumber);
    }
    let f = p[1].as_slice();
    let is_name = eq_str(f, "name");
    let is_org = eq_str(f, "org");
    let is_contact = eq_str(f, "contact");
    let is_note = eq_str(f, "note");
    let is_beat = eq_str(f, "beat");
    if !(is_name || is_org || is_contact || is_note || is_beat) {
        return Err(SourceError::UnknownField);
    }
    if n > sources.len() as u64 || sources.len() == 0 {
        return Err(SourceError::OutOfRange);
    }
    let k = (n - 1) as usize;
    let ghost before = sources_view(sources@);
    let mut s = sources.remove(k);
    let value = string_of(p[2].as_slice());
    if is_name {
        s.name = Some(value);
    } else if is_org {
        s.org = Some(value);
    } else if is_contact {
        s.contact = Some(value);
    } else if is_note {
        s.note = Some(value);
    } else {
        s.beat = Some(value);
    }
    let ghost sv = s@;
    assert(sv == with_field(before[k as int], pv[1], pv[2]));
    sources.insert(k, s);
    assert(sources_view(sources@) =~= before.update(k as int, sv));
    Ok(())
}

// ───────────────────────── the network by beat ─────────────────────────

/// The beat a source counts under: its trimmed beat, or `(미지정)` when it
/// has none.
pub open spec fn beat_key(s: SourceV) -> Seq<char> {
    let b = trim(text_or_empty(s.beat));
    if b.len() == 0 {
        "(미지정)"@
    } else {
        b
    }
}

/// How many sources count under `k`.
pub open spec fn beat_count(ss: Seq<SourceV>, k: Seq<char>) -> nat
    decreases ss.len(),
{
    if ss.len() == 0 {
        0
    } else {
        beat_count(ss.drop_last(), k) + if beat_key(ss.last()) == k {
            1nat
        } else {
            0nat
        }
    }
}

/// The beats of `ss`, each once, in the order they first appear.
pub open spec fn beat_keys(ss: Seq<SourceV>) -> Seq<Seq<char>>
    decreases ss.len(),
{
    if ss.len() == 0 {
        seq![]
    } else {
        let ks = beat_keys(ss.drop_last());
        if ks.contains(beat_key(ss.last())) {
            ks
        } else {
            ks.push(beat_key(ss.last()))
        }
    }
}

/// What `compute_beat_distribution` returns: each beat with its count.
pub open spec fn beat_distribution(ss: Seq<SourceV>) -> Seq<(Seq<char>, nat)> {
    beat_keys(ss).map_values(|k: Seq<char>| (k, beat_count(ss, k)))
}

pub open spec fn counts_view(d: Seq<(String, usize)>) -> Seq<(Seq<char>, nat)> {
    d.map_values(|e: (String, usize)| (e.0@, e.1 as nat))
}

proof fn lemma_beat_keys(ss: Seq<SourceV>)
    ensures
        forall|i: int, j: int|
            0 <= i < j < beat_keys(ss).len() ==> beat_keys(ss)[i] != beat_keys(ss)[j],
        forall|k: Seq<char>| beat_keys(ss).contains(k) <==> beat_count(ss, k) > 0,
        beat_keys(ss).len() <= ss.len(),
    decreases ss.len(),
{
    if ss.len() > 0 {
        lemma_beat_keys(ss.drop_last());
        let ks = beat_keys(ss.drop_last());
        let x = beat_key(ss.last());
        assert forall|k: Seq<char>| beat_keys(ss).contains(k) <==> beat_count(ss, k) > 0 by {
            if !ks.contains(x) {
                if k == x {
                    assert(ks.push(x)[ks.len() as int] == x);
                }
                if ks.contains(k) {
                    let i = choose|i: int| 0 <= i < ks.len() && ks[i] == k;
                    assert(ks.push(x)[i] == k);
                }
                if ks.push(x).contains(k) {
                    let i = choose|i: int| 0 <= i < ks.len() + 1 && ks.push(x)[i] == k;
                    if i < ks.len() {
                        assert(ks[i] == k);
                    }
                }
            }
        }
    }
}

proof fn lemma_beat_count_bound(ss: Seq<SourceV>, k: Seq<char>)
    ensures
        beat_count(ss, k) <= ss.len(),
    decreases ss.len(),
{
    if ss.len() > 0 {
        lemma_beat_count_bound(ss.drop_last(), k);
    }
}

fn beat_key_exec(s: &Source) -> (r: Vec<char>)
    ensures
        r@ == beat_key(s@),
{
    let b = text_or_empty_exec(&s.beat);
    let t = trim_vec(b.as_slice());
    if t.len() == 0 {
        chars_of("(미지정)")
    } else {
        t
    }
}

/// Compute beat distribution from sources: each beat (in the order it first
/// appears) with the number of sources under it.
pub fn compute_beat_distribution(sources: &Vec<Source>) -> (r: Vec<(String, usize)>)
    ensures
        counts_view(r@) == beat_distribution(sources_view(sources@)),
{
    let ghost ss = sources_view(sources@);
    let mut dist: Vec<(String, usize)> = Vec::new();
    let mut keys: Vec<Vec<char>> = Vec::new();
    let mut i: usize = 0;
    assert(ss.take(0) =~= Seq::<SourceV>::empty());
    assert(counts_view(dist@) =~= Seq::<(Seq<char>, nat)>::empty());
    assert(keys.deep_view() =~= Seq::<Seq<char>>::empty());
    while i < sources.len()
        invariant
            i <= sources@.len(),
            ss == sources_view(sources@),
            keys.deep_view() == beat_keys(ss.take(i as int)),
            dist@.len() == keys@.len(),
            counts_view(dist@) == beat_distribution(ss.take(i as int)),
        decreases sources@.len() - i,
    {
        let ghost pre = ss.take(i as int);
        let ghost post = ss.take(i + 1);
        assert(post.drop_last() =~= pre);
        assert(post.last() == sources[i as int]@);
        proof {
            lemma_beat_keys(pre);
            lemma_beat_keys(post);
            lemma_beat_count_bound(pre, beat_key(post.last()));
        }
        let k = beat_key_exec(&sources[i]);
        let mut j: usize = 0;
        let mut found = false;
        while j < keys.len() && !found
            invariant
                j <= keys@.len(),
                !found ==> forall|q: int| 0 <= q < j ==> keys.deep_view()[q] != k@,
                found ==> j > 0 && keys.deep_view()[j - 1] == k@,
            decreases keys@.len() - j + if found { 0int } else { 1int },
        {
            assert(keys[j as int]@ == keys.deep_view()[j as int]);
            if crate::text::eq_exec(keys[j].as_slice(), k.as_slice()) {
                found = true;
            }
            j += 1;
        }
        let ghost kv = k@;
        let ghost old_keys = keys.deep_view();
        if found {
            let q = j - 1;
            assert(old_keys.contains(kv));
            assert(beat_keys(post) == old_keys);
            let ghost old_dist = counts_view(dist@);
            let (name, c) = dist.remove(q);
            assert(c as nat == beat_count(pre, kv)) by {
                assert(counts_view(dist@.insert(q as int, (name, c)))[q as int] == beat_distribution(pre)[q as int]);
            }
            let ghost rest = dist@;
            dist.insert(q, (name, c + 1));
            assert(counts_view(dist@) =~= old_dist.update(q as int, (name@, (c + 1) as nat)));
            assert forall|m: int| 0 <= m < old_keys.len() implies #[trigger] counts_view(dist@)[m]
                == (old_keys[m], beat_count(post, old_keys[m])) by {
                assert(old_dist[m] == beat_distribution(pre)[m]);
                if m == q {
                    assert(name@ == old_keys[q as int]);
                } else {
                    assert(old_keys[m] != kv);
                }
            }
            assert(counts_view(dist@) =~= beat_distribution(post));
        } else {
            assert(!old_keys.contains(kv));
            assert(beat_keys(post) == old_keys.push(kv));
            let ks = string_of(k.as_slice());
            let ghost old_dist = counts_view(dist@);
            dist.push((ks, 1));
            crate::text::push_word(&mut keys, k);
            assert(counts_view(dist@) =~= old_dist.push((kv, 1nat)));
            assert forall|m: int| 0 <= m < old_keys.len() implies #[trigger] counts_view(dist@)[m]
                == (old_keys[m], beat_count(post, old_keys[m])) by {
                assert(old_dist[m] == beat_distribution(pre)[m]);
                assert(old_keys[m] != kv) by {
                    if old_keys[m] == kv {
                        assert(old_keys.contains(kv));
                    }
                }
            }
            assert(beat_count(pre, kv) == 0);
            assert(counts_view(dist@) =~= beat_distribution(post));
        }
        i += 1;
    }
    assert(ss.take(sources@.len() as int) =~= ss);
    dist
}

/// The order of (beat, count) rows: by count (descending when `desc`,
/// ascending otherwise), then by beat name.
pub open spec fn row_le(a: (Seq<char>, nat), b: (Seq<char>, nat), desc: bool) -> bool {
    if a.1 == b.1 {
        lex_le(a.0, b.0)
    } else if desc {
        a.1 > b.1
    } else {
        a.1 < b.1
    }
}

pub open spec fn rows_sorted(r: Seq<(Seq<char>, nat)>, desc: bool) -> bool {
    forall|i: int, j: int| 0 <= i < j < r.len() ==> row_le(#[trigger] r[i], #[trigger] r[j], desc)
}

proof fn lemma_row_total(a: (Seq<char>, nat), b: (Seq<char>, nat), desc: bool)
    ensures
        row_le(a, b, desc) || row_le(b, a, desc),
{
    lemma_lex_total(a.0, b.0);
}

proof fn lemma_row_trans(a: (Seq<char>, nat), b: (Seq<char>, nat), c: (Seq<char>, nat), desc: bool)
    requires
        row_le(a, b, desc),
        row_le(b, c, desc),
    ensures
        row_le(a, c, desc),
{
    if a.1 == b.1 && b.1 == c.1 {
        lemma_lex_trans(a.0, b.0, c.0);
    }
}

fn row_le_exec(a: &(String, usize), b: &(String, usize), desc: bool) -> (r: bool)
    ensures
        r == row_le((a.0@, a.1 as nat), (b.0@, b.1 as nat), desc),
{
    if a.1 == b.1 {
        let x = chars_of(a.0.as_str());
        let y = chars_of(b.0.as_str());
        lex_le_exec(x.as_slice(), y.as_slice())
    } else if desc {
        a.1 > b.1
    } else {
        a.1 < b.1
    }
}

fn copy_row(e: &(String, usize)) -> (r: (String, usize))
    ensures
        r.0@ == e.0@,
        r.1 == e.1,
{
    let v = chars_of(e.0.as_str());
    (string_of(v.as_slice()), e.1)
}

/// Insert `x` into sorted `out` after every row that goes before it.
fn insert_row(out: &mut Vec<(String, usize)>, x: (String, usize), desc: bool)
    requires
        rows_sorted(counts_view(old(out)@), desc),
    ensures
        rows_sorted(counts_view(final(out)@), desc),
        counts_view(final(out)@).to_multiset() == counts_view(old(out)@).to_multiset().insert(
            (x.0@, x.1 as nat),
        ),
{
    let ghost ov = counts_view(out@);
    let ghost xv = (x.0@, x.1 as nat);
    let mut p: usize = 0;
    let mut stop = false;
    while p < out.len() && !stop
        invariant
            p <= out@.len(),
            ov == counts_view(out@),
            xv == (x.0@, x.1 as nat),
            forall|k: int| 0 <= k < p ==> row_le(#[trigger] ov[k], xv, desc),
            stop ==> p < out@.len() && !row_le(ov[p as int], xv, desc),
        decreases out@.len() - p + if stop { 0int } else { 1int },
    {
        assert(ov[p as int] == (out[p as int].0@, out[p as int].1 as nat));
        if row_le_exec(&out[p], &x, desc) {
            p += 1;
        } else {
            stop = true;
        }
    }
    if p < out.len() {
        assert(ov[p as int] == (out[p as int].0@, out[p as int].1 as nat));
        proof {
            lemma_row_total(ov[p as int], xv, desc);
        }
    }
    out.insert(p, x);
    let ghost nv = counts_view(out@);
    assert(nv =~= ov.insert(p as int, xv));
    assert forall|i: int, j: int| 0 <= i < j < nv.len() implies row_le(#[trigger] nv[i], #[trigger] nv[j], desc) by {
        if j < p {
            assert(nv[i] == ov[i] && nv[j] == ov[j]);
        } else if j == p {
            assert(nv[i] == ov[i]);
        } else if i == p {
            assert(nv[j] == ov[j - 1]);
            if j - 1 > p {
                assert(row_le(ov[p as int], ov[j - 1], desc));
                lemma_row_trans(xv, ov[p as int], ov[j - 1], desc);
            }
        } else if i < p {
            assert(nv[i] == ov[i] && nv[j] == ov[j - 1]);
        } else {
            assert(nv[i] == ov[i - 1] && nv[j] == ov[j - 1]);
        }
    }
    proof {
        vstd::seq_lib::to_multiset_insert(ov, p as int, xv);
    }
}

/// The rows of `d` with a count of at most `t`, in their order.
pub open spec fn rows_at_most(d: Seq<(Seq<char>, nat)>, t: nat) -> Seq<(Seq<char>, nat)>
    decreases d.len(),
{
    if d.len() == 0 {
        seq![]
    } else {
        let r = rows_at_most(d.drop_last(), t);
        if d.last().1 <= t {
            r.push(d.last())
        } else {
            r
        }
    }
}

/// Sort (beat, count) rows, keeping those with a count of at most `limit`.
fn sort_rows(d: &Vec<(String, usize)>, limit: usize, desc: bool) -> (r: Vec<(String, usize)>)
    ensures
        rows_sorted(counts_view(r@), desc),
        counts_view(r@).to_multiset() == rows_at_most(counts_view(d@), limit as nat).to_multiset(),
{
    let ghost dv = counts_view(d@);
    let mut out: Vec<(String, usize)> = Vec::new();
    let mut i: usize = 0;
    assert(dv.take(0) =~= Seq::<(Seq<char>, nat)>::empty());
    assert(counts_view(out@) =~= Seq::<(Seq<char>, nat)>::empty());
    proof {
        broadcast use vstd::seq_lib::group_to_multiset_ensures;
    }
    while i < d.len()
        invariant
            i <= d@.len(),
            dv == counts_view(d@),
            rows_sorted(counts_view(out@), desc),
            counts_view(out@).to_multiset() == rows_at_most(dv.take(i as int), limit as nat).to_multiset(),
        decreases d@.len() - i,
    {
        assert(dv.take(i + 1).drop_last() =~= dv.take(i as int));
        assert(dv.take(i + 1).last() == (d[i as int].0@, d[i as int].1 as nat));
        if d[i].1 <= limit {
            let row = copy_row(&d[i]);
            insert_row(&mut out, row, desc);
            proof {
                vstd::seq_lib::to_multiset_build(rows_at_most(dv.take(i as int), limit as nat), dv[i as int]);
            }
        }
        i += 1;
    }
    assert(dv.take(d@.len() as int) =~= dv);
    out
}

/// Identify weak beats: beats with at most `threshold` sources, by count
/// then name.
pub fn find_gap_beats(dist: &Vec<(String, usize)>, threshold: usize) -> (r: Vec<(String, usize)>)
    ensures
        rows_sorted(counts_view(r@), false),
        counts_view(r@).to_multiset() == rows_at_most(counts_view(dist@), threshold as nat).to_multiset(),
{
    sort_rows(dist, threshold, false)
}

proof fn lemma_rows_at_most_all(d: Seq<(Seq<char>, nat)>)
    requires
        forall|i: int| 0 <= i < d.len() ==> (#[trigger] d[i]).1 <= usize::MAX,
    ensures
        rows_at_most(d, usize::MAX as nat) == d,
    decreases d.len(),
{
    if d.len() > 0 {
        lemma_rows_at_most_all(d.drop_last());
        assert(d.drop_last().push(d.last()) =~= d);
    }
}

/// The beats by count, most first, then by name (the `/network map` order).
pub fn sort_beats_by_count(dist: &Vec<(String, usize)>) -> (r: Vec<(String, usize)>)
    ensures
        rows_sorted(counts_view(r@), true),
        counts_view(r@).to_multiset() == counts_view(dist@).to_multiset(),
{
    let r = sort_rows(dist, usize::MAX, true);
    proof {
        lemma_rows_at_most_all(counts_view(dist@));
    }
    r
}

/// How well a beat is covered: 강 from 5 sources, 보통 from 3, else 약.
pub open spec fn strength_of(count: nat) -> Seq<char> {
    if count >= 5 {
        "강"@
    } else if count >= 3 {
        "보통"@
    } else {
        "약"@
    }
}

/// The strength label of a beat with `count` sources.
pub fn beat_strength(count: usize) -> (r: &'static str)
    ensures
        r@ == strength_of(count as nat),
{
    if count >= 5 {
        "강"
    } else if count >= 3 {
        "보통"
    } else {
        "약"
    }
}

/// The warning for a weak beat: none, very few, or few sources.
pub open spec fn gap_level_of(count: nat) -> Seq<char> {
    if count == 0 {
        "⚠ 없음"@
    } else if count == 1 {
        "⚠ 매우 부족"@
    } else {
        "△ 부족"@
    }
}

/// The warning label of a weak beat with `count` sources.
pub fn gap_level(count: usize) -> (r: &'static str)
    ensures
        r@ == gap_level_of(count as nat),
{
    if count == 0 {
        "⚠ 없음"
    } else if count == 1 {
        "⚠ 매우 부족"
    } else {
        "△ 부족"
    }
}

/// The bar of a beat in the map: `count` scaled to 20 against the largest
/// count, at least one block.
pub open spec fn bar_blocks(count: nat, max_count: nat) -> nat {
    let b = if max_count > 0 {
        (count * 20) / max_count
    } else {
        0
    };
    if b >= 1 {
        b
    } else {
        1
    }
}

/// How many blocks the bar of a beat gets.
pub fn beat_bar_len(count: usize, max_count: usize) -> (r: usize)
    requires
        count * 20 <= usize::MAX,
    ensures
        r as nat == bar_blocks(count as nat, max_count as nat),
{
    let b = if max_count > 0 {
        (count * 20) / max_count
    } else {
        0
    };
    if b >= 1 {
        b
    } else {
        1
    }
}


/// The name a source is listed by (`?` when it has none).
pub open spec fn shown_name(s: SourceV) -> Seq<char> {
    match s.name {
        Some(n) => n,
        None => "?"@,
    }
}

/// How source number `num` is listed: name, organisation and contact, then
/// the beat in brackets (when `show_beat` and it has one) and the note.
pub open spec fn source_line_text(num: nat, s: SourceV, show_beat: bool) -> Seq<char> {
    "  "@ + crate::text::dec(num) + ". "@ + shown_name(s) + " | "@ + text_or_empty(s.org) + " | "@
        + text_or_empty(s.contact) + (if show_beat && text_or_empty(s.beat).len() > 0 {
        " ["@ + text_or_empty(s.beat) + "]"@
    } else {
        seq![]
    }) + if text_or_empty(s.note).len() > 0 {
        " | "@ + text_or_empty(s.note)
    } else {
        seq![]
    }
}

/// How source number `num` is listed by `/sources list` and `/sources
/// search` (`show_beat`) or by `/sources beat`.
pub fn source_line(num: usize, s: &Source, show_beat: bool) -> (r: String)
    ensures
        r@ == source_line_text(num as nat, s@, show_beat),
{
    let mut out = chars_of("  ");
    crate::text::push_dec(&mut out, num as u64);
    push_str(&mut out, ". ");
    match &s.name {
        Some(n) => push_str(&mut out, n.as_str()),
        None => push_str(&mut out, "?"),
    }
    push_str(&mut out, " | ");
    push_all(&mut out, text_or_empty_exec(&s.org).as_slice());
    push_str(&mut out, " | ");
    push_all(&mut out, text_or_empty_exec(&s.contact).as_slice());
    let beat = text_or_empty_exec(&s.beat);
    if show_beat && beat.len() > 0 {
        push_str(&mut out, " [");
        push_all(&mut out, beat.as_slice());
        push_str(&mut out, "]");
    }
    let note = text_or_empty_exec(&s.note);
    if note.len() > 0 {
        push_str(&mut out, " | ");
        push_all(&mut out, note.as_slice());
    }
    assert(out@ =~= source_line_text(num as nat, s@, show_beat));
    string_of(out.as_slice())
}

} // verus!
