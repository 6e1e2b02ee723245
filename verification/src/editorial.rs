//! Editorial management rules: desk assignments, collaborative reporting
//! projects, and coverage claims (argument parsing, time checks, expiry).
use vstd::prelude::*;
use crate::calendar::{epoch_date_text, unix_now_secs};
use crate::text::{
    byte_len, byte_len_exceeds, chars_of, dec_pad, eq_str, is_digit, find, find_exec, join, join_exec,
    lemma_find_from, lex_le, lex_le_exec, matches_at, parse_i32_exec, parse_int, parse_uint,
    parse_uint_exec, push_all, push_dec_pad, push_str, slice_of, split_char, split_on,
    split_once_ws, split_once_ws_exec, split_ws, string_of, trim, trim_vec, words,
};

verus! {

// ───────────────────────── shared helpers ─────────────────────────

/// The view of an optional text.
pub open spec fn opt_view(o: Option<String>) -> Option<Seq<char>> {
    match o {
        Some(s) => Some(s@),
        None => None,
    }
}

/// The views of a list of texts.
pub open spec fn strings_view(v: Seq<String>) -> Seq<Seq<char>> {
    v.map_values(|s: String| s@)
}

pub(crate) fn strings_of(v: &Vec<Vec<char>>) -> (r: Vec<String>)
    ensures
        strings_view(r@) == v.deep_view(),
{
    let mut out: Vec<String> = Vec::new();
    let mut i: usize = 0;
    while i < v.len()
        invariant
            i <= v@.len(),
            strings_view(out@) == v.deep_view().take(i as int),
        decreases v@.len() - i,
    {
        let s = string_of(v[i].as_slice());
        let ghost before = out@;
        out.push(s);
        assert(strings_view(out@) =~= strings_view(before).push(v[i as int]@));
        assert(v.deep_view()[i as int] =~= v[i as int]@);
        assert(v.deep_view().take(i + 1) =~= v.deep_view().take(i as int).push(v[i as int]@));
        i += 1;
    }
    assert(v.deep_view().take(v@.len() as int) =~= v.deep_view());
    out
}

fn opt_string(o: Option<Vec<char>>) -> (r: Option<String>)
    ensures
        opt_view(r) == match o {
            Some(v) => Some(v@),
            None => None,
        },
{
    match o {
        Some(v) => Some(string_of(v.as_slice())),
        None => None,
    }
}

// ───────────────────────── /desk ─────────────────────────

/// Status of a desk assignment.
#[derive(Clone, Copy, Debug, PartialEq, Eq, Structural)]
pub enum DeskStatus {
    Pending,
    Done,
}

/// A single desk assignment (데스크 → 기자 업무 지시).
#[derive(Clone, Debug)]
pub struct DeskAssignment {
    pub reporter: String,
    pub content: String,
    pub deadline: Option<String>,
    pub status: DeskStatus,
    pub feedback: Vec<String>,
    /// true if this was a reporter pitch rather than a desk assignment
    pub is_pitch: bool,
    pub created_at: String,
}

/// Where desk assignments are kept.
pub const DESK_ASSIGNMENTS_FILE: &'static str = ".journalist/desk/assignments.json";

/// The file holding the desk's assignments.
pub fn desk_path() -> (r: String)
    ensures
        r@ == DESK_ASSIGNMENTS_FILE@,
{
    string_of(chars_of(DESK_ASSIGNMENTS_FILE).as_slice())
}

/// What `parse_desk_assign_args` returns: the reporter (the text before the
/// first whitespace), then the content and an optional `--deadline` value.
pub open spec fn desk_assign_args(args: Seq<char>) -> Option<(Seq<char>, Seq<char>, Option<Seq<char>>)> {
    match split_once_ws(args) {
        None => None,
        Some((r, rest0)) => {
            let reporter = trim(r);
            let rest = trim(rest0);
            if rest.len() == 0 {
                None
            } else {
                match find(rest, "--deadline"@) {
                    Some(p) => {
                        let content = trim(rest.take(p));
                        let dl = trim(rest.skip(p + "--deadline"@.len()));
                        if content.len() == 0 {
                            None
                        } else {
                            Some((reporter, content, if dl.len() == 0 { None } else { Some(dl) }))
                        }
                    },
                    None => Some((reporter, rest, None)),
                }
            }
        },
    }
}

/// Parse reporter, content, and optional --deadline from assign args.
pub fn parse_desk_assign_args(args: &str) -> (r: Option<(String, String, Option<String>)>)
    ensures
        match r {
            Some((a, b, c)) => desk_assign_args(args@) == Some((a@, b@, opt_view(c))),
            None => desk_assign_args(args@) is None,
        },
{
    let v = chars_of(args);
    let (r0, rest0) = match split_once_ws_exec(v.as_slice()) {
        Some(p) => p,
        None => return None,
    };
    let reporter = trim_vec(r0.as_slice());
    let rest = trim_vec(rest0.as_slice());
    if rest.len() == 0 {
        return None;
    }
    let flag = chars_of("--deadline");
    match find_exec(rest.as_slice(), flag.as_slice()) {
        Some(p) => {
            proof {
                lemma_find_from(rest@, flag@, 0);
                assert(matches_at(rest@, flag@, p as int));
            }
            let n = rest.len();
            assert(p + flag@.len() <= n);
            let head = slice_of(rest.as_slice(), 0, p);
            let tail = slice_of(rest.as_slice(), p + flag.len(), rest.len());
            assert(head@ =~= rest@.take(p as int));
            assert(tail@ =~= rest@.skip(p + flag@.len()));
            let content = trim_vec(head.as_slice());
            let dl = trim_vec(tail.as_slice());
            if content.len() == 0 {
                return None;
            }
            let deadline = if dl.len() == 0 {
                None
            } else {
                Some(string_of(dl.as_slice()))
            };
            Some((string_of(reporter.as_slice()), string_of(content.as_slice()), deadline))
        },
        None => Some((string_of(reporter.as_slice()), string_of(rest.as_slice()), None)),
    }
}

/// The number two ASCII digits stand for.
pub open spec fn two_digits(a: char, b: char) -> int {
    (a as int - '0' as int) * 10 + (b as int - '0' as int)
}

/// What `is_valid_time` accepts: the `HH:MM` shape, two ASCII digits, a
/// colon and two ASCII digits, with hours below 24 and minutes below 60.
pub open spec fn valid_time(s: Seq<char>) -> bool {
    &&& s.len() == 5
    &&& s[2] == ':'
    &&& is_digit(s[0]) && is_digit(s[1]) && is_digit(s[3]) && is_digit(s[4])
    &&& two_digits(s[0], s[1]) < 24
    &&& two_digits(s[3], s[4]) < 60
}

pub(crate) fn byte_len_is(s: &[char], n: usize) -> (r: bool)
    requires
        1 <= n < 100,
    ensures
        r == (byte_len(s@) == n),
{
    byte_len_exceeds(s, n - 1) && !byte_len_exceeds(s, n)
}

/// Validate HH:MM time format.
pub fn is_valid_time(s: &str) -> (r: bool)
    ensures
        r == valid_time(s@),
{
    let v = chars_of(s);
    if v.len() != 5 || v[2] != ':' {
        return false;
    }
    let d = |c: char| -> (r: bool)
        ensures
            r == is_digit(c),
        { '0' <= c && c <= '9' };
    if !(d(v[0]) && d(v[1]) && d(v[3]) && d(v[4])) {
        return false;
    }
    let h = (v[0] as u32 - '0' as u32) * 10 + (v[1] as u32 - '0' as u32);
    let m = (v[3] as u32 - '0' as u32) * 10 + (v[4] as u32 - '0' as u32);
    h < 24 && m < 60
}

// ───────────────────────── /collaborate ─────────────────────────

/// Where collaborative projects are kept.
pub const COLLABORATE_DIR: &'static str = ".journalist/collaborate";

/// A collaborative reporting project.
#[derive(Clone, Debug)]
pub struct CollabProject {
    pub name: String,
    pub reporters: Vec<String>,
    pub notes: Vec<CollabNote>,
    pub status: CollabStatus,
    pub created_at: String,
}

/// A single note within a collaborative project.
#[derive(Clone, Debug)]
pub struct CollabNote {
    pub reporter: String,
    pub content: String,
    pub timestamp: String,
}

#[derive(Clone, Copy, Debug, PartialEq, Eq, Structural)]
pub enum CollabStatus {
    Active,
    Closed,
}

/// The names in a `--reporters` value: split at commas, trimmed, empty ones
/// dropped.
pub open spec fn reporter_names(ps: Seq<Seq<char>>) -> Seq<Seq<char>>
    decreases ps.len(),
{
    if ps.len() == 0 {
        seq![]
    } else {
        let r = reporter_names(ps.drop_last());
        if trim(ps.last()).len() > 0 {
            r.push(trim(ps.last()))
        } else {
            r
        }
    }
}

/// Reading the words of `/collaborate start` from word `i`: the first plain
/// word is the project name; the word after the last `--reporters` is the
/// reporter list.
pub open spec fn collab_start_scan(
    toks: Seq<Seq<char>>,
    i: int,
    name: Seq<char>,
    reps: Seq<Seq<char>>,
) -> (Seq<char>, Seq<Seq<char>>)
    decreases toks.len() - i,
{
    if i < 0 || i >= toks.len() {
        (name, reps)
    } else if toks[i] == "--reporters"@ {
        if i + 1 < toks.len() {
            collab_start_scan(toks, i + 2, name, reporter_names(split_on(toks[i + 1], ',')))
        } else {
            collab_start_scan(toks, i + 1, name, reps)
        }
    } else {
        collab_start_scan(toks, i + 1, if name.len() == 0 { toks[i] } else { name }, reps)
    }
}

/// What `parse_collab_start_args` returns.
pub open spec fn collab_start_args(args: Seq<char>) -> (Seq<char>, Seq<Seq<char>>) {
    collab_start_scan(words(args), 0, seq![], seq![])
}

fn reporter_names_exec(s: &[char]) -> (r: Vec<Vec<char>>)
    ensures
        r.deep_view() == reporter_names(split_on(s@, ',')),
{
    let parts = split_char(s, ',');
    let ghost pv = parts.deep_view();
    let mut out: Vec<Vec<char>> = Vec::new();
    let mut j: usize = 0;
    assert(pv.take(0) =~= Seq::<Seq<char>>::empty());
    assert(out.deep_view() =~= Seq::<Seq<char>>::empty());
    while j < parts.len()
        invariant
            j <= parts@.len(),
            pv == parts.deep_view(),
            out.deep_view() == reporter_names(pv.take(j as int)),
        decreases parts@.len() - j,
    {
        assert(pv.take(j + 1).drop_last() =~= pv.take(j as int));
        assert(parts[j as int]@ == pv[j as int]);
        let t = trim_vec(parts[j].as_slice());
        if t.len() > 0 {
            let ghost before = out.deep_view();
            let ghost tv = t@;
            out.push(t);
            assert(out.deep_view() =~= before.push(tv)) by {
                assert(out@[out@.len() - 1].deep_view() =~= tv);
            }
        }
        j += 1;
    }
    assert(pv.take(parts@.len() as int) =~= pv);
    out
}

/// Parse `/collaborate start` arguments: `<프로젝트명> [--reporters 기자1,기자2]`.
pub fn parse_collab_start_args(args: &str) -> (r: (String, Vec<String>))
    ensures
        (r.0@, strings_view(r.1@)) == collab_start_args(args@),
{
    let v = chars_of(args);
    let toks = split_ws(v.as_slice());
    let ghost tv = toks.deep_view();
    let mut name: Vec<char> = Vec::new();
    let mut reporters: Vec<Vec<char>> = Vec::new();
    let mut i: usize = 0;
    assert(reporters.deep_view() =~= Seq::<Seq<char>>::empty());
    assert(name@ =~= Seq::<char>::empty());
    while i < toks.len()
        invariant
            i <= toks@.len() + 1,
            tv == toks.deep_view(),
            tv == words(args@),
            collab_start_args(args@) == collab_start_scan(tv, i as int, name@, reporters.deep_view()),
        decreases toks@.len() + 1 - i,
    {
        assert(toks[i as int]@ == tv[i as int]);
        if eq_str(toks[i].as_slice(), "--reporters") {
            if i + 1 < toks.len() {
                assert(toks[i + 1]@ == tv[i + 1]);
                reporters = reporter_names_exec(toks[i + 1].as_slice());
                i += 2;
            } else {
                i += 1;
            }
        } else {
            if name.len() == 0 {
                name = slice_of(toks[i].as_slice(), 0, toks[i].len());
                assert(name@ =~= tv[i as int]);
            }
            i += 1;
        }
    }
    (string_of(name.as_slice()), strings_of(&reporters))
}

/// Reading the words of `/collaborate note` from word `i`: plain words are
/// content; the word after `--reporter` is the reporter.
pub open spec fn collab_note_scan(
    toks: Seq<Seq<char>>,
    i: int,
    content: Seq<Seq<char>>,
    reporter: Seq<char>,
) -> (Seq<Seq<char>>, Seq<char>)
    decreases toks.len() - i,
{
    if i < 0 || i >= toks.len() {
        (content, reporter)
    } else if toks[i] == "--reporter"@ {
        if i + 1 < toks.len() {
            collab_note_scan(toks, i + 2, content, toks[i + 1])
        } else {
            collab_note_scan(toks, i + 1, content, reporter)
        }
    } else {
        collab_note_scan(toks, i + 1, content.push(toks[i]), reporter)
    }
}

/// What `parse_collab_note_args` returns: the project (first word), the
/// content words joined by single spaces, and the reporter (or empty); `None`
/// with fewer than two words or no content.
pub open spec fn collab_note_args(args: Seq<char>) -> Option<(Seq<char>, Seq<char>, Seq<char>)> {
    let toks = words(args);
    if toks.len() < 2 {
        None
    } else {
        let (content, reporter) = collab_note_scan(toks, 1, seq![], seq![]);
        let c = join(content, seq![' ']);
        if c.len() == 0 {
            None
        } else {
            Some((toks[0], c, reporter))
        }
    }
}

/// Parse `/collaborate note` arguments: `<프로젝트명> <내용> [--reporter 기자명]`.
pub fn parse_collab_note_args(args: &str) -> (r: Option<(String, String, String)>)
    ensures
        match r {
            Some((a, b, c)) => collab_note_args(args@) == Some((a@, b@, c@)),
            None => collab_note_args(args@) is None,
        },
{
    let v = chars_of(args);
    let toks = split_ws(v.as_slice());
    let ghost tv = toks.deep_view();
    if toks.len() < 2 {
        return None;
    }
    let mut content: Vec<Vec<char>> = Vec::new();
    let mut reporter: Vec<char> = Vec::new();
    let mut i: usize = 1;
    assert(content.deep_view() =~= Seq::<Seq<char>>::empty());
    assert(reporter@ =~= Seq::<char>::empty());
    while i < toks.len()
        invariant
            1 <= i <= toks@.len() + 1,
            tv == toks.deep_view(),
            collab_note_scan(tv, 1, seq![], seq![]) == collab_note_scan(
                tv,
                i as int,
                content.deep_view(),
                reporter@,
            ),
        decreases toks@.len() + 1 - i,
    {
        assert(toks[i as int]@ == tv[i as int]);
        if eq_str(toks[i].as_slice(), "--reporter") {
            if i + 1 < toks.len() {
                assert(toks[i + 1]@ == tv[i + 1]);
                reporter = slice_of(toks[i + 1].as_slice(), 0, toks[i + 1].len());
                assert(reporter@ =~= tv[i + 1]);
                i += 2;
            } else {
                i += 1;
            }
        } else {
            let w = slice_of(toks[i].as_slice(), 0, toks[i].len());
            assert(w@ =~= tv[i as int]);
            let ghost before = content.deep_view();
            let ghost wv = w@;
            content.push(w);
            assert(content.deep_view() =~= before.push(wv)) by {
                assert(content@[content@.len() - 1].deep_view() =~= wv);
            }
            i += 1;
        }
    }
    let c = join_exec(&content, &[' ']);
    assert(seq![' '] =~= [' ']@);
    if c.len() == 0 {
        return None;
    }
    let project = slice_of(toks[0].as_slice(), 0, toks[0].len());
    assert(project@ =~= tv[0]);
    Some((string_of(project.as_slice()), string_of(c.as_slice()), string_of(reporter.as_slice())))
}

// ───────────────────────── /coverage ─────────────────────────

/// Where coverage claims are kept.
pub const COVERAGE_FILE: &'static str = ".journalist/coverage.json";

/// The file holding the coverage claims.
pub fn coverage_path() -> (r: String)
    ensures
        r@ == COVERAGE_FILE@,
{
    string_of(chars_of(COVERAGE_FILE).as_slice())
}

/// A single coverage claim (속보 취재 영역 선점).
#[derive(Clone, Debug)]
pub struct CoverageClaim {
    pub topic: String,
    pub reporter: String,
    /// Optional expiry time in "HH:MM" format.
    pub until: Option<String>,
    pub active: bool,
    pub created_at: String,
}

pub struct CoverageClaimV {
    pub topic: Seq<char>,
    pub reporter: Seq<char>,
    pub until: Option<Seq<char>>,
    pub active: bool,
    pub created_at: Seq<char>,
}

impl View for CoverageClaim {
    type V = CoverageClaimV;

    open spec fn view(&self) -> CoverageClaimV {
        CoverageClaimV {
            topic: self.topic@,
            reporter: self.reporter@,
            until: opt_view(self.until),
            active: self.active,
            created_at: self.created_at@,
        }
    }
}

/// A claim has expired when it has an `until` time and `now` is not before it
/// (the texts compared as strings).
pub open spec fn claim_expired(c: CoverageClaimV, now: Seq<char>) -> bool {
    match c.until {
        Some(u) => lex_le(u, now),
        None => false,
    }
}

/// Check if a claim has expired based on its `until` time and current HH:MM.
pub fn is_claim_expired(claim: &CoverageClaim, now_hhmm: &str) -> (r: bool)
    ensures
        r == claim_expired(claim@, now_hhmm@),
{
    match &claim.until {
        Some(until) => {
            let u = chars_of(until.as_str());
            let n = chars_of(now_hhmm);
            lex_le_exec(u.as_slice(), n.as_slice())
        },
        None => false,
    }
}

/// `HH:MM` (UTC) of the instant `secs` seconds after the Unix epoch.
pub open spec fn hhmm_text(secs: nat) -> Seq<char> {
    let t = secs % 86400;
    dec_pad(t / 3600, 2) + seq![':'] + dec_pad((t % 3600) / 60, 2)
}

/// The `HH:MM` (UTC) of a Unix time in seconds.
pub fn hhmm_of_secs(secs: u64) -> (r: String)
    ensures
        r@ == hhmm_text(secs as nat),
{
    let t = secs % 86400;
    let mut out: Vec<char> = Vec::new();
    push_dec_pad(&mut out, t / 3600, 2);
    out.push(':');
    push_dec_pad(&mut out, (t % 3600) / 60, 2);
    string_of(out.as_slice())
}

/// Get current time as "HH:MM" (UTC): `hhmm_of_secs` of the system clock,
/// whatever time it reads.
pub fn current_hhmm() -> (r: String)
    ensures
        exists|secs: nat| r@ == hhmm_text(secs),
{
    let secs = unix_now_secs();
    hhmm_of_secs(secs)
}

/// `YYYY-MM-DDTHH:MM:00` (UTC) of the instant `secs` seconds after the epoch.
pub open spec fn timestamp_text(secs: nat) -> Seq<char> {
    epoch_date_text((secs / 86400) as int) + seq!['T'] + hhmm_text(secs) + ":00"@
}

/// The `YYYY-MM-DDTHH:MM:00` (UTC) text of a Unix time in seconds.
pub fn timestamp_of_secs(secs: u64) -> (r: String)
    ensures
        r@ == timestamp_text(secs as nat),
{
    let days = secs / 86400;
    let mut out = crate::calendar::epoch_date_vec(days);
    out.push('T');
    let hm = hhmm_of_secs(secs);
    let hv = chars_of(hm.as_str());
    push_all(&mut out, hv.as_slice());
    push_str(&mut out, ":00");
    string_of(out.as_slice())
}

/// The current time as `YYYY-MM-DDTHH:MM:00` (UTC), whatever the clock reads.
pub fn now_timestamp() -> (r: String)
    ensures
        exists|secs: nat| r@ == timestamp_text(secs),
{
    let secs = unix_now_secs();
    timestamp_of_secs(secs)
}

/// A claim after expiry: inactive once its time has passed.
pub open spec fn expire_one(c: CoverageClaimV, now: Seq<char>) -> CoverageClaimV {
    CoverageClaimV { active: c.active && !claim_expired(c, now), ..c }
}

/// How many active claims of `cs` have expired by `now`.
pub open spec fn newly_expired(cs: Seq<CoverageClaimV>, now: Seq<char>) -> nat
    decreases cs.len(),
{
    if cs.len() == 0 {
        0
    } else {
        newly_expired(cs.drop_last(), now) + if cs.last().active && claim_expired(
            cs.last(),
            now,
        ) {
            1nat
        } else {
            0nat
        }
    }
}

pub open spec fn claims_view(cs: Seq<CoverageClaim>) -> Seq<CoverageClaimV> {
    cs.map_values(|c: CoverageClaim| c@)
}

proof fn lemma_newly_expired_bound(cs: Seq<CoverageClaimV>, now: Seq<char>)
    ensures
        newly_expired(cs, now) <= cs.len(),
    decreases cs.len(),
{
    if cs.len() > 0 {
        lemma_newly_expired_bound(cs.drop_last(), now);
    }
}

/// Mark expired claims as inactive (mutates in place, returns count of newly expired).
pub fn expire_claims(claims: &mut Vec<CoverageClaim>, now_hhmm: &str) -> (r: usize)
    ensures
        claims_view(final(claims)@) == claims_view(old(claims)@).map_values(
            |c: CoverageClaimV| expire_one(c, now_hhmm@),
        ),
        r == newly_expired(claims_view(old(claims)@), now_hhmm@),
        r == turned_off(claims_view(old(claims)@), claims_view(final(claims)@), old(claims)@.len() as int),
{
    let ghost orig = claims_view(claims@);
    proof {
        lemma_expire_count(orig, now_hhmm@);
    }
    let n0 = claims.len();
    assert(orig.len() == n0);
    let mut rest: Vec<CoverageClaim> = Vec::new();
    std::mem::swap(claims, &mut rest);
    let ghost f = |c: CoverageClaimV| expire_one(c, now_hhmm@);
    let mut count: usize = 0;
    let mut k: usize = 0;
    assert(claims_view(claims@) =~= Seq::<CoverageClaimV>::empty());
    assert(claims_view(rest@) =~= orig.skip(0));
    assert(orig.take(0) =~= Seq::<CoverageClaimV>::empty());
    while rest.len() > 0
        invariant
            k <= orig.len(),
            orig.len() == n0,
            claims_view(rest@) == orig.skip(k as int),
            claims_view(claims@) == orig.take(k as int).map_values(f),
            f == (|c: CoverageClaimV| expire_one(c, now_hhmm@)),
            count == newly_expired(orig.take(k as int), now_hhmm@),
            count <= k,
        decreases rest@.len(),
    {
        let ghost rv = claims_view(rest@);
        let mut c = rest.remove(0);
        assert(c@ == rv[0]);
        assert(claims_view(rest@) =~= orig.skip(k + 1)) by {
            assert(rv.drop_first() =~= orig.skip(k + 1));
        }
        assert(orig.take(k + 1).drop_last() =~= orig.take(k as int));
        assert(orig[k as int] == c@);
        let expired = c.active && is_claim_expired(&c, now_hhmm);
        let ghost cv = c@;
        if expired {
            c.active = false;
            count = count + 1;
        }
        assert(c@ == f(cv));
        let ghost before = claims_view(claims@);
        claims.push(c);
        assert(claims_view(claims@) =~= before.push(f(cv)));
        assert(orig.take(k + 1).map_values(f) =~= orig.take(k as int).map_values(f).push(f(cv)));
        k += 1;
    }
    assert(orig.skip(k as int).len() == 0);
    assert(orig.take(k as int) =~= orig);
    count
}

proof fn lemma_newly_expired_after(cs: Seq<CoverageClaimV>, now: Seq<char>)
    ensures
        newly_expired(cs.map_values(|c: CoverageClaimV| expire_one(c, now)), now) == 0,
    decreases cs.len(),
{
    if cs.len() > 0 {
        let f = |c: CoverageClaimV| expire_one(c, now);
        lemma_newly_expired_after(cs.drop_last(), now);
        assert(cs.map_values(f).drop_last() =~= cs.drop_last().map_values(f));
    }
}

/// How many of the first `k` claims are active in `before` and inactive in
/// `after`.
pub open spec fn turned_off(before: Seq<CoverageClaimV>, after: Seq<CoverageClaimV>, k: int) -> nat
    decreases k,
{
    if k <= 0 {
        0
    } else {
        turned_off(before, after, k - 1) + if before[k - 1].active && !after[k - 1].active {
            1nat
        } else {
            0nat
        }
    }
}

proof fn lemma_turned_off_prefix(a: Seq<CoverageClaimV>, b: Seq<CoverageClaimV>, a2: Seq<CoverageClaimV>, b2: Seq<CoverageClaimV>, k: int)
    requires
        0 <= k <= a.len(),
        k <= a2.len(),
        k <= b.len(),
        k <= b2.len(),
        forall|i: int| 0 <= i < k ==> a[i] == a2[i] && b[i] == b2[i],
    ensures
        turned_off(a, b, k) == turned_off(a2, b2, k),
    decreases k,
{
    if k > 0 {
        lemma_turned_off_prefix(a, b, a2, b2, k - 1);
    }
}

/// The number `expire_claims` reports is the number of claims it turned from
/// active to inactive: each active claim whose time has passed counts once.
pub proof fn lemma_expire_count(cs: Seq<CoverageClaimV>, now: Seq<char>)
    ensures
        newly_expired(cs, now) == turned_off(
            cs,
            cs.map_values(|c: CoverageClaimV| expire_one(c, now)),
            cs.len() as int,
        ),
    decreases cs.len(),
{
    let f = |c: CoverageClaimV| expire_one(c, now);
    if cs.len() > 0 {
        let d = cs.drop_last();
        lemma_expire_count(d, now);
        lemma_turned_off_prefix(d, d.map_values(f), cs, cs.map_values(f), d.len() as int);
        assert(cs.map_values(f)[cs.len() - 1] == f(cs.last()));
    }
}

/// Expiring claims a second time with the same clock changes nothing and
/// finds none newly expired; each pass keeps every field but `active`, and
/// only ever turns a claim inactive.
pub proof fn lemma_expire_idempotent(cs: Seq<CoverageClaimV>, now: Seq<char>)
    ensures
        ({
            let f = |c: CoverageClaimV| expire_one(c, now);
            let once = cs.map_values(f);
            &&& once.map_values(f) == once
            &&& newly_expired(once, now) == 0
            &&& once.len() == cs.len()
            &&& forall|i: int|
                0 <= i < cs.len() ==> {
                    &&& #[trigger] once[i].topic == cs[i].topic
                    &&& once[i].reporter == cs[i].reporter
                    &&& once[i].until == cs[i].until
                    &&& once[i].created_at == cs[i].created_at
                    &&& once[i].active == (cs[i].active && !claim_expired(cs[i], now))
                }
        }),
{
    let f = |c: CoverageClaimV| expire_one(c, now);
    let once = cs.map_values(f);
    assert(once.map_values(f) =~= once);
    lemma_newly_expired_after(cs, now);
}

/// A time that `is_valid_time` accepts stands for a minute of the day, and
/// reading it stays within `i32`.
pub proof fn lemma_valid_time_minutes(s: Seq<char>)
    requires
        valid_time(s),
    ensures
        hhmm_fits(s),
        hhmm_minutes(s) == Some(two_digits(s[0], s[1]) * 60 + two_digits(s[3], s[4])),
        hhmm_minutes(s) matches Some(m) && 0 <= m < 1440,
{
    let a = s.take(2);
    let b = s.skip(3);
    assert(split_on(s, ':') =~= seq![a, b]) by {
        reveal_with_fuel(crate::text::split_state, 6);
        assert(s.drop_last() =~= s.take(4));
        assert(s.take(4).drop_last() =~= s.take(3));
        assert(s.take(3).drop_last() =~= s.take(2));
        assert(s.take(2).drop_last() =~= s.take(1));
        assert(s.take(1).drop_last() =~= s.take(0));
        assert(s.take(4).last() == s[3]);
        assert(s.take(3).last() == s[2]);
        assert(s.take(2).last() == s[1]);
        assert(s.take(1).last() == s[0]);
        assert(s.take(1) =~= seq![s[0]]);
        assert(s.take(2) =~= seq![s[0], s[1]]);
        assert(s.take(3) =~= seq![s[0], s[1], ':']);
        assert(s.take(4) =~= seq![s[0], s[1], ':', s[3]]);
        assert(b =~= seq![s[3], s[4]]);
        assert(seq![s[3]].push(s[4]) =~= b);
        assert(seq![s[0]].push(s[1]) =~= a);
    }
    assert(crate::text::digits_value(a) == two_digits(s[0], s[1])) by {
        reveal_with_fuel(crate::text::digits_value, 3);
        assert(a.drop_last() =~= seq![s[0]]);
        assert(seq![s[0]].drop_last() =~= Seq::<char>::empty());
    }
    assert(crate::text::digits_value(b) == two_digits(s[3], s[4])) by {
        reveal_with_fuel(crate::text::digits_value, 3);
        assert(b.drop_last() =~= seq![s[3]]);
        assert(seq![s[3]].drop_last() =~= Seq::<char>::empty());
    }
    assert(crate::text::all_digits(a));
    assert(crate::text::all_digits(b));
}

/// The difference of a time from itself is zero, and swapping the two
/// times negates the difference.
pub proof fn lemma_time_diff_antisymmetric(a: Seq<char>, b: Seq<char>)
    ensures
        hhmm_minutes(a) is Some ==> time_diff(a, a) == Some(0int),
        time_diff(a, b) matches Some(d) ==> time_diff(b, a) == Some(-d),
        time_diff(a, b) is None <==> time_diff(b, a) is None,
{
}

/// Differences of times add up: from `a` to `b` and from `b` to `c` is from
/// `a` to `c`.
pub proof fn lemma_time_diff_adds(a: Seq<char>, b: Seq<char>, c: Seq<char>)
    ensures
        time_diff(a, b) is Some && time_diff(b, c) is Some ==> time_diff(a, c) == Some(
            time_diff(a, b)->0 + time_diff(b, c)->0,
        ),
{
}

/// For two valid `HH:MM` times, the text order is the order of the times:
/// `a` comes no later than `b` exactly when the difference from `b` to `a`
/// is not positive.
pub proof fn lemma_time_order(a: Seq<char>, b: Seq<char>)
    requires
        valid_time(a),
        valid_time(b),
    ensures
        time_diff(a, b) matches Some(d) && (crate::text::lex_le(a, b) <==> d <= 0),
{
    lemma_valid_time_minutes(a);
    lemma_valid_time_minutes(b);
    reveal_with_fuel(crate::text::lex_le, 6);
    assert(a.drop_first()[0] == a[1]);
    assert(a.drop_first().drop_first()[0] == a[2]);
    assert(a.drop_first().drop_first().drop_first()[0] == a[3]);
    assert(a.drop_first().drop_first().drop_first().drop_first()[0] == a[4]);
    assert(b.drop_first()[0] == b[1]);
    assert(b.drop_first().drop_first()[0] == b[2]);
    assert(b.drop_first().drop_first().drop_first()[0] == b[3]);
    assert(b.drop_first().drop_first().drop_first().drop_first()[0] == b[4]);
}

/// Reading the words of `/coverage claim` from word `i`: plain words make the
/// topic; `--reporter` and `--until` take the following word.
pub open spec fn coverage_scan(
    toks: Seq<Seq<char>>,
    i: int,
    topic: Seq<Seq<char>>,
    reporter: Seq<char>,
    until: Option<Seq<char>>,
) -> (Seq<Seq<char>>, Seq<char>, Option<Seq<char>>)
    decreases toks.len() - i,
{
    if i < 0 || i >= toks.len() {
        (topic, reporter, until)
    } else if toks[i] == "--reporter"@ {
        if i + 1 < toks.len() {
            coverage_scan(toks, i + 2, topic, toks[i + 1], until)
        } else {
            coverage_scan(toks, i + 1, topic, reporter, until)
        }
    } else if toks[i] == "--until"@ {
        if i + 1 < toks.len() {
            coverage_scan(toks, i + 2, topic, reporter, Some(toks[i + 1]))
        } else {
            coverage_scan(toks, i + 1, topic, reporter, until)
        }
    } else {
        coverage_scan(toks, i + 1, topic.push(toks[i]), reporter, until)
    }
}

/// What `parse_coverage_claim_args` returns: the topic words joined by single
/// spaces, the reporter (or empty), and the optional `--until` value.
pub open spec fn coverage_claim_args(args: Seq<char>) -> (Seq<char>, Seq<char>, Option<Seq<char>>) {
    let (topic, reporter, until) = coverage_scan(words(args), 0, seq![], seq![], None);
    (join(topic, seq![' ']), reporter, until)
}

/// Parse claim args: `<주제> [--reporter 기자명] [--until HH:MM]`
pub fn parse_coverage_claim_args(args: &str) -> (r: (String, String, Option<String>))
    ensures
        (r.0@, r.1@, opt_view(r.2)) == coverage_claim_args(args@),
{
    let v = chars_of(args);
    let toks = split_ws(v.as_slice());
    let ghost tv = toks.deep_view();
    let mut topic: Vec<Vec<char>> = Vec::new();
    let mut reporter: Vec<char> = Vec::new();
    let mut until: Option<Vec<char>> = None;
    let mut i: usize = 0;
    assert(topic.deep_view() =~= Seq::<Seq<char>>::empty());
    assert(reporter@ =~= Seq::<char>::empty());
    while i < toks.len()
        invariant
            i <= toks@.len() + 1,
            tv == toks.deep_view(),
            tv == words(args@),
            coverage_scan(tv, 0, seq![], seq![], None) == coverage_scan(
                tv,
                i as int,
                topic.deep_view(),
                reporter@,
                match until {
                    Some(u) => Some(u@),
                    None => None,
                },
            ),
        decreases toks@.len() + 1 - i,
    {
        assert(toks[i as int]@ == tv[i as int]);
        if eq_str(toks[i].as_slice(), "--reporter") {
            if i + 1 < toks.len() {
                assert(toks[i + 1]@ == tv[i + 1]);
                reporter = slice_of(toks[i + 1].as_slice(), 0, toks[i + 1].len());
                assert(reporter@ =~= tv[i + 1]);
                i += 2;
            } else {
                i += 1;
            }
        } else if eq_str(toks[i].as_slice(), "--until") {
            if i + 1 < toks.len() {
                assert(toks[i + 1]@ == tv[i + 1]);
                let u = slice_of(toks[i + 1].as_slice(), 0, toks[i + 1].len());
                assert(u@ =~= tv[i + 1]);
                until = Some(u);
                i += 2;
            } else {
                i += 1;
            }
        } else {
            let w = slice_of(toks[i].as_slice(), 0, toks[i].len());
            assert(w@ =~= tv[i as int]);
            let ghost before = topic.deep_view();
            let ghost wv = w@;
            topic.push(w);
            assert(topic.deep_view() =~= before.push(wv)) by {
                assert(topic@[topic@.len() - 1].deep_view() =~= wv);
            }
            i += 1;
        }
    }
    let t = join_exec(&topic, &[' ']);
    assert(seq![' '] =~= [' ']@);
    (string_of(t.as_slice()), string_of(reporter.as_slice()), opt_string(until))
}

/// The hour and minute fields of an `H:M` text, each read as an `i32`.
pub open spec fn hhmm_parts(s: Seq<char>) -> Option<(int, int)> {
    let p = split_on(s, ':');
    if p.len() != 2 {
        None
    } else {
        match (parse_int(p[0], i32::MIN as int, i32::MAX as int), parse_int(p[1], i32::MIN as int, i32::MAX as int)) {
            (Some(h), Some(m)) => Some((h, m)),
            _ => None,
        }
    }
}

pub open spec fn fits_i32(x: int) -> bool {
    i32::MIN <= x <= i32::MAX
}

/// The minutes past midnight an `H:M` text stands for.
pub open spec fn hhmm_minutes(s: Seq<char>) -> Option<int> {
    match hhmm_parts(s) {
        Some((h, m)) => Some(h * 60 + m),
        None => None,
    }
}

/// Computing the minutes of `s` stays within `i32`.
pub open spec fn hhmm_fits(s: Seq<char>) -> bool {
    match hhmm_parts(s) {
        Some((h, m)) => fits_i32(h * 60) && fits_i32(h * 60 + m),
        None => true,
    }
}

/// What `time_diff_minutes(target, now)` returns.
pub open spec fn time_diff(target: Seq<char>, now: Seq<char>) -> Option<int> {
    match hhmm_minutes(target) {
        None => None,
        Some(t) => match hhmm_minutes(now) {
            None => None,
            Some(n) => Some(t - n),
        },
    }
}

fn hhmm_minutes_exec(s: &[char]) -> (r: Option<i32>)
    requires
        hhmm_fits(s@),
    ensures
        match r {
            Some(v) => hhmm_minutes(s@) == Some(v as int),
            None => hhmm_minutes(s@) is None,
        },
{
    let parts = split_char(s, ':');
    if parts.len() != 2 {
        return None;
    }
    assert(parts[0]@ == split_on(s@, ':')[0]);
    assert(parts[1]@ == split_on(s@, ':')[1]);
    let h = match parse_i32_exec(parts[0].as_slice()) {
        Some(h) => h,
        None => return None,
    };
    let m = match parse_i32_exec(parts[1].as_slice()) {
        Some(m) => m,
        None => return None,
    };
    let hm = (h as i64) * 60 + (m as i64);
    Some(hm as i32)
}

/// Calculate difference in minutes between two HH:MM times. Returns None if parsing fails.
pub fn time_diff_minutes(target: &str, now: &str) -> (r: Option<i32>)
    requires
        hhmm_fits(target@),
        hhmm_minutes(target@) is Some ==> hhmm_fits(now@),
        hhmm_minutes(target@) matches Some(t) ==> (hhmm_minutes(now@) matches Some(n) ==> fits_i32(
            t - n,
        )),
    ensures
        match r {
            Some(v) => time_diff(target@, now@) == Some(v as int),
            None => time_diff(target@, now@) is None,
        },
{
    let tv = chars_of(target);
    let t = match hhmm_minutes_exec(tv.as_slice()) {
        Some(t) => t,
        None => return None,
    };
    let nv = chars_of(now);
    let n = match hhmm_minutes_exec(nv.as_slice()) {
        Some(n) => n,
        None => return None,
    };
    Some(t - n)
}

} // verus!
