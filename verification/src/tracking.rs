//! Follow-up stories, reporter notes and source contact logs: their argument
//! parsers, date arithmetic and file names.
use vstd::prelude::*;
use crate::calendar::{days_before_year, leap};
use crate::editorial::{byte_len_is, opt_view};
use crate::project::{alnum, is_alphanumeric};
use crate::text::{
    dec, push_dec, first_ws_exec, find_char_from, is_digit, parse_digits, parse_digits_exec, push_word, split_once_ws, split_once_ws_exec, first_ws_from, push_all, push_str, starts_with, starts_with_exec,
    trim_start, trim_start_index, byte_len, chars_of, find, find_exec, lemma_find_from, parse_i64_exec, parse_int, parse_uint,
    parse_uint_exec, slice_of, split_char, split_on, string_of, trim, trim_vec,
};

verus! {

// ───────────────────────── /follow ─────────────────────────

/// Where follow-up stories are kept.
pub const FOLLOWUPS_FILE: &'static str = ".journalist/followups.json";

/// A single follow-up story entry.
#[derive(Clone, Debug)]
pub struct Followup {
    pub topic: String,
    /// Optional due date in "YYYY-MM-DD" format.
    pub due: Option<String>,
    pub done: bool,
    /// ISO 8601 datetime when the followup was created.
    pub created_at: String,
}

/// What `parse_follow_add_args` returns: the topic before `--due` and the
/// non-empty text after it, both trimmed.
pub open spec fn follow_add_args(args: Seq<char>) -> (Seq<char>, Option<Seq<char>>) {
    match find(args, "--due"@) {
        Some(p) => {
            let due = trim(args.skip(p + 5));
            (trim(args.take(p)), if due.len() == 0 {
                None
            } else {
                Some(due)
            })
        },
        None => (trim(args), None),
    }
}

/// Parse topic and optional --due flag from args.
pub fn parse_follow_add_args(args: &str) -> (r: (String, Option<String>))
    ensures
        (r.0@, opt_view(r.1)) == follow_add_args(args@),
{
    let a = chars_of(args);
    let pat = chars_of("--due");
    proof {
        reveal_strlit("--due");
        lemma_find_from(a@, pat@, 0);
    }
    let n = a.len();
    match find_exec(a.as_slice(), pat.as_slice()) {
        Some(p) => {
            let head = slice_of(a.as_slice(), 0, p);
            let tail = slice_of(a.as_slice(), p + 5, n);
            assert(head@ =~= a@.take(p as int));
            assert(tail@ =~= a@.skip(p + 5));
            let topic = trim_vec(head.as_slice());
            let due = trim_vec(tail.as_slice());
            let d = if due.len() == 0 {
                None
            } else {
                Some(string_of(due.as_slice()))
            };
            (string_of(topic.as_slice()), d)
        },
        None => (string_of(trim_vec(a.as_slice()).as_slice()), None),
    }
}

/// What `is_valid_date` accepts: a 10-byte `YYYY-MM-DD` whose fields are of
/// 4, 2 and 2 bytes, read as `u32`, with a month of 1 to 12 and a day of 1
/// to 31.
pub open spec fn valid_date_text(s: Seq<char>) -> bool {
    let p = split_on(s, '-');
    &&& byte_len(s) == 10
    &&& p.len() == 3
    &&& byte_len(p[0]) == 4
    &&& byte_len(p[1]) == 2
    &&& byte_len(p[2]) == 2
    &&& parse_uint(p[0], u32::MAX as nat) is Some
    &&& parse_uint(p[1], u32::MAX as nat) matches Some(m) && 1 <= m <= 12
    &&& parse_uint(p[2], u32::MAX as nat) matches Some(d) && 1 <= d <= 31
}

/// Validate YYYY-MM-DD date format.
pub fn is_valid_date(s: &str) -> (r: bool)
    ensures
        r == valid_date_text(s@),
{
    let v = chars_of(s);
    if !byte_len_is(v.as_slice(), 10) {
        return false;
    }
    let parts = split_char(v.as_slice(), '-');
    if parts.len() != 3 {
        return false;
    }
    assert(parts[0]@ == split_on(s@, '-')[0]);
    assert(parts[1]@ == split_on(s@, '-')[1]);
    assert(parts[2]@ == split_on(s@, '-')[2]);
    if !byte_len_is(parts[0].as_slice(), 4) || !byte_len_is(parts[1].as_slice(), 2)
        || !byte_len_is(parts[2].as_slice(), 2) {
        return false;
    }
    let y = parse_uint_exec(parts[0].as_slice(), u32::MAX as u64);
    let m = parse_uint_exec(parts[1].as_slice(), u32::MAX as u64);
    let d = parse_uint_exec(parts[2].as_slice(), u32::MAX as u64);
    match (y, m, d) {
        (Some(_), Some(m), Some(d)) => 1 <= m && m <= 12 && 1 <= d && d <= 31,
        _ => false,
    }
}

pub open spec fn fits_i64(x: int) -> bool {
    i64::MIN <= x <= i64::MAX
}

/// The year, month and day of a `Y-M-D` text, the year read as `i64` and the
/// month and day as `u32`, when the month is 1 to 12 and the day 1 to 31.
pub open spec fn date_parts(date: Seq<char>) -> Option<(int, int, int)> {
    let p = split_on(date, '-');
    if p.len() != 3 {
        None
    } else {
        match (
            parse_int(p[0], i64::MIN as int, i64::MAX as int),
            parse_uint(p[1], u32::MAX as nat),
            parse_uint(p[2], u32::MAX as nat),
        ) {
            (Some(y), Some(m), Some(d)) => if 1 <= m <= 12 && 1 <= d <= 31 {
                Some((y, m as int, d as int))
            } else {
                None
            },
            _ => None,
        }
    }
}

/// The year counted from March: January and February belong to the year
/// before.
pub open spec fn march_year(y: int, m: int) -> int {
    if m <= 2 {
        y - 1
    } else {
        y
    }
}

/// The month counted from March (March is 0).
pub open spec fn march_month(m: int) -> int {
    if m <= 2 {
        m + 9
    } else {
        m - 3
    }
}

/// The 400-year era of a March-based year (rounded down).
pub open spec fn era_of(y: int) -> int {
    if y >= 0 {
        y / 400
    } else {
        -((399 - y) / 400)
    }
}

/// The day within its era of a March-based date.
pub open spec fn day_of_era(y: int, mm: int, d: int) -> int {
    let yoe = y - era_of(y) * 400;
    let doy = (153 * mm + 2) / 5 + d - 1;
    yoe * 365 + yoe / 4 - yoe / 100 + doy
}

/// Days since 1970-01-01 of a proleptic Gregorian date (Howard Hinnant's
/// `days_from_civil`).
pub open spec fn civil_days(y: int, m: int, d: int) -> int {
    let y2 = march_year(y, m);
    era_of(y2) * 146097 + day_of_era(y2, march_month(m), d) - 719468
}

/// The `i64` arithmetic of `civil_days` does not overflow.
pub open spec fn civil_fits(y: int, m: int, d: int) -> bool {
    let y2 = march_year(y, m);
    let e = era_of(y2);
    &&& fits_i64(y2)
    &&& y2 < 0 ==> fits_i64(y2 - 399)
    &&& fits_i64(e * 146097)
    &&& fits_i64(e * 146097 + day_of_era(y2, march_month(m), d))
    &&& fits_i64(civil_days(y, m, d))
}

/// Days since the epoch of a `Y-M-D` text.
pub open spec fn date_epoch_days(date: Seq<char>) -> Option<int> {
    match date_parts(date) {
        Some((y, m, d)) => Some(civil_days(y, m, d)),
        None => None,
    }
}

/// Reading `date` stays within `i64`.
pub open spec fn date_fits(date: Seq<char>) -> bool {
    match date_parts(date) {
        Some((y, m, d)) => civil_fits(y, m, d),
        None => true,
    }
}

proof fn lemma_era(y: int)
    ensures
        0 <= y - era_of(y) * 400 < 400,
{
    if y >= 0 {
        assert(0 <= y - (y / 400) * 400 < 400);
    } else {
        let q = (399 - y) / 400;
        let r = (399 - y) % 400;
        assert(399 - y == 400 * q + r && 0 <= r < 400);
        assert(y - era_of(y) * 400 == 399 - r);
    }
}

/// Convert "YYYY-MM-DD" to days since epoch. Returns None if format is invalid.
fn date_to_epoch_days(date: &[char]) -> (r: Option<i64>)
    requires
        date_fits(date@),
    ensures
        match r {
            Some(v) => date_epoch_days(date@) == Some(v as int),
            None => date_epoch_days(date@) is None,
        },
{
    let parts = split_char(date, '-');
    if parts.len() != 3 {
        return None;
    }
    assert(parts[0]@ == split_on(date@, '-')[0]);
    assert(parts[1]@ == split_on(date@, '-')[1]);
    assert(parts[2]@ == split_on(date@, '-')[2]);
    let y = match parse_i64_exec(parts[0].as_slice()) {
        Some(y) => y,
        None => return None,
    };
    let m = match parse_uint_exec(parts[1].as_slice(), u32::MAX as u64) {
        Some(m) => m,
        None => return None,
    };
    let d = match parse_uint_exec(parts[2].as_slice(), u32::MAX as u64) {
        Some(d) => d,
        None => return None,
    };
    if !(1 <= m && m <= 12) || !(1 <= d && d <= 31) {
        return None;
    }
    let y2: i128 = if m <= 2 {
        y as i128 - 1
    } else {
        y as i128
    };
    let m2: i128 = if m <= 2 {
        m as i128 + 9
    } else {
        m as i128 - 3
    };
    assert(y2 == march_year(y as int, m as int));
    assert(m2 == march_month(m as int));
    let era: i128 = if y2 >= 0 {
        y2 / 400
    } else {
        -((399 - y2) / 400)
    };
    assert(era == era_of(y2 as int));
    proof {
        lemma_era(y2 as int);
    }
    let yoe: i128 = y2 - era * 400;
    let doy: i128 = (153 * m2 + 2) / 5 + d as i128 - 1;
    let doe: i128 = yoe * 365 + yoe / 4 - yoe / 100 + doy;
    assert(doe == day_of_era(y2 as int, m2 as int, d as int));
    let days: i128 = era * 146097 + doe - 719468;
    assert(days == civil_days(y as int, m as int, d as int));
    Some(days as i64)
}

/// Calculate days from `today` to `target` date (both YYYY-MM-DD). Returns None if either is invalid.
pub fn days_until(target: &str, today: &str) -> (r: Option<i64>)
    requires
        date_fits(target@),
        date_epoch_days(target@) is Some ==> date_fits(today@),
        date_epoch_days(target@) matches Some(t) ==> (date_epoch_days(today@) matches Some(n)
            ==> fits_i64(t - n)),
    ensures
        match r {
            Some(v) => days_between_dates(target@, today@) == Some(v as int),
            None => days_between_dates(target@, today@) is None,
        },
{
    let tv = chars_of(target);
    let t = match date_to_epoch_days(tv.as_slice()) {
        Some(t) => t,
        None => return None,
    };
    let nv = chars_of(today);
    let n = match date_to_epoch_days(nv.as_slice()) {
        Some(n) => n,
        None => return None,
    };
    Some(t - n)
}

/// What `days_until(target, today)` returns: the days from `today` to
/// `target`, when both read as dates.
pub open spec fn days_between_dates(target: Seq<char>, today: Seq<char>) -> Option<int> {
    match (date_epoch_days(target), date_epoch_days(today)) {
        (Some(t), Some(n)) => Some(t - n),
        _ => None,
    }
}

/// A date is zero days from itself, and swapping the two dates negates the
/// count.
pub proof fn lemma_days_until_antisymmetric(a: Seq<char>, b: Seq<char>)
    ensures
        date_epoch_days(a) is Some ==> days_between_dates(a, a) == Some(0int),
        days_between_dates(a, b) matches Some(k) ==> days_between_dates(b, a) == Some(-k),
{
}

// ───────────────────────── /note ─────────────────────────

/// Where reporter notes are kept, one JSONL file a day.
pub const NOTES_DIR: &'static str = ".journalist/notes";

/// A single reporter note entry stored as one JSONL line.
#[derive(Clone, Debug)]
pub struct Note {
    pub content: String,
    pub source: Option<String>,
    pub topic: Option<String>,
    pub timestamp: String,
}

/// `.journalist/notes/<date>.jsonl`.
pub open spec fn notes_file_text(date: Seq<char>) -> Seq<char> {
    NOTES_DIR@ + "/"@ + date + ".jsonl"@
}

/// The notes file of a day: `.journalist/notes/YYYY-MM-DD.jsonl`.
pub fn notes_file_for_date(date: &str) -> (r: String)
    ensures
        r@ == notes_file_text(date@),
{
    let mut v = chars_of(NOTES_DIR);
    push_str(&mut v, "/");
    push_str(&mut v, date);
    push_str(&mut v, ".jsonl");
    string_of(v.as_slice())
}

/// `s` without leading `c`s.
pub open spec fn strip_lead(s: Seq<char>, c: char) -> Seq<char>
    decreases s.len(),
{
    if s.len() > 0 && s[0] == c {
        strip_lead(s.drop_first(), c)
    } else {
        s
    }
}

/// `s` without trailing `c`s.
pub open spec fn strip_trail(s: Seq<char>, c: char) -> Seq<char>
    decreases s.len(),
{
    if s.len() > 0 && s.last() == c {
        strip_trail(s.drop_last(), c)
    } else {
        s
    }
}

/// `str::trim_end_matches(c)`.
pub fn strip_trail_exec(t: &[char], c: char) -> (r: Vec<char>)
    ensures
        r@ == strip_trail(t@, c),
{
    let mut j = t.len();
    assert(t@.take(j as int) =~= t@);
    while j > 0 && t[j - 1] == c
        invariant
            j <= t@.len(),
            strip_trail(t@, c) == strip_trail(t@.take(j as int), c),
        decreases j,
    {
        assert(t@.take(j as int).drop_last() =~= t@.take(j - 1));
        j -= 1;
    }
    let r = slice_of(t, 0, j);
    assert(r@ =~= t@.take(j as int));
    r
}

/// `str::trim_matches(c)`.
pub open spec fn trim_char(s: Seq<char>, c: char) -> Seq<char> {
    strip_trail(strip_lead(s, c), c)
}

/// `str::trim_matches(c)`.
pub fn trim_char_exec(s: &[char], c: char) -> (r: Vec<char>)
    ensures
        r@ == trim_char(s@, c),
{
    let mut i: usize = 0;
    assert(s@.skip(0) =~= s@);
    while i < s.len() && s[i] == c
        invariant
            i <= s@.len(),
            strip_lead(s@, c) == strip_lead(s@.skip(i as int), c),
        decreases s@.len() - i,
    {
        assert(s@.skip(i as int).drop_first() =~= s@.skip(i + 1));
        i += 1;
    }
    let t = slice_of(s, i, s.len());
    assert(t@ =~= s@.skip(i as int));
    let mut j = t.len();
    assert(t@.take(j as int) =~= t@);
    while j > 0 && t[j - 1] == c
        invariant
            j <= t@.len(),
            strip_trail(t@, c) == strip_trail(t@.take(j as int), c),
        decreases j,
    {
        assert(t@.take(j as int).drop_last() =~= t@.take(j - 1));
        j -= 1;
    }
    let r = slice_of(t.as_slice(), 0, j);
    assert(r@ =~= t@.take(j as int));
    r
}

/// Quotes and spaces peeled off a text: trimmed, without surrounding `"`
/// then `'`, trimmed again.
pub open spec fn unquote(s: Seq<char>) -> Seq<char> {
    trim(trim_char(trim_char(s, '"'), '\''))
}

fn unquote_exec(s: &[char]) -> (r: Vec<char>)
    ensures
        r@ == unquote(s@),
{
    let a = trim_char_exec(s, '"');
    let b = trim_char_exec(a.as_slice(), '\'');
    trim_vec(b.as_slice())
}

/// What `extract_flag_value(s)` returns: the value after a flag (a quoted
/// text, or the next word; none when the next thing is another `--flag`) and
/// the rest.
pub open spec fn flag_value(s0: Seq<char>) -> (Seq<char>, Seq<char>) {
    let s = trim(s0);
    if s.len() == 0 {
        (seq![], seq![])
    } else if starts_with(s, "--"@) {
        (seq![], s)
    } else if s[0] == '"' && find(s.drop_first(), seq!['"']) is Some {
        let e = find(s.drop_first(), seq!['"'])->0;
        (s.subrange(1, e + 1), trim(s.skip(e + 2)))
    } else {
        let end = match first_ws_from(s, 0) {
            Some(k) => k,
            None => s.len() as int,
        };
        (s.take(end), trim(s.skip(end)))
    }
}

/// Extract a flag value: takes the next word (or quoted string) and returns (value, rest).
pub fn extract_flag_value(s0: &str) -> (r: (String, String))
    ensures
        (r.0@, r.1@) == flag_value(s0@),
{
    let v0 = chars_of(s0);
    let v = trim_vec(v0.as_slice());
    proof {
        lemma_trim_idem(v0@);
    }
    let (a, b) = flag_value_chars(v.as_slice());
    (string_of(a.as_slice()), string_of(b.as_slice()))
}

proof fn lemma_trim_idem(s: Seq<char>)
    ensures
        trim(trim(s)) == trim(s),
{
    crate::text::lemma_trim_trim(s);
}

fn flag_value_chars(s: &[char]) -> (r: (Vec<char>, Vec<char>))
    requires
        trim(s@) == s@,
    ensures
        (r.0@, r.1@) == flag_value(s@),
{
    let n = s.len();
    if n == 0 {
        return (Vec::new(), Vec::new());
    }
    let dd = chars_of("--");
    if starts_with_exec(s, dd.as_slice()) {
        return (Vec::new(), slice_of(s, 0, n));
    }
    if s[0] == '"' {
        let rest = slice_of(s, 1, n);
        assert(rest@ =~= s@.drop_first());
        match find_char_from(rest.as_slice(), '"', 0) {
            Some(e) => {
                proof {
                    lemma_find_from(rest@, seq!['"'], 0);
                }
                assert(find(s@.drop_first(), seq!['"']) == Some(e as int));
                let val = slice_of(s, 1, e + 1);
                let tail = slice_of(s, e + 2, n);
                assert(tail@ =~= s@.skip(e + 2));
                return (val, trim_vec(tail.as_slice()));
            },
            None => {
                assert(find(s@.drop_first(), seq!['"']) is None);
            },
        }
    }
    let end = match first_ws_exec(s) {
        Some(k) => k,
        None => n,
    };
    let val = slice_of(s, 0, end);
    let tail = slice_of(s, end, n);
    assert(val@ =~= s@.take(end as int));
    assert(tail@ =~= s@.skip(end as int));
    (val, trim_vec(tail.as_slice()))
}

/// Taking one `--flag value` out of the note text: the value (none when
/// empty) and the text with the flag and its value removed, trimmed.
pub open spec fn take_flag(text: Seq<char>, flag: Seq<char>) -> (Option<Seq<char>>, Seq<char>) {
    match find(text, flag) {
        Some(pos) => {
            let before = text.take(pos);
            let after = trim_start(text.skip(pos + flag.len()));
            let (val, rest) = flag_value(after);
            (if val.len() == 0 {
                None
            } else {
                Some(val)
            }, trim(before + seq![' '] + rest))
        },
        None => (None, text),
    }
}

/// What `parse_note_add_args` returns: the content (unquoted), then the
/// `--source` and `--topic` values.
pub open spec fn note_add_args(args: Seq<char>) -> (Seq<char>, Option<Seq<char>>, Option<Seq<char>>) {
    let (source, r1) = take_flag(args, "--source"@);
    let (topic, r2) = take_flag(r1, "--topic"@);
    (unquote(trim(r2)), source, topic)
}

fn take_flag_exec(text: Vec<char>, flag: &str) -> (r: (Option<String>, Vec<char>))
    ensures
        (opt_view(r.0), r.1@) == take_flag(text@, flag@),
{
    let fv = chars_of(flag);
    proof {
        lemma_find_from(text@, fv@, 0);
    }
    let n = text.len();
    match find_exec(text.as_slice(), fv.as_slice()) {
        Some(pos) => {
            let before = slice_of(text.as_slice(), 0, pos);
            let tail = slice_of(text.as_slice(), pos + fv.len(), n);
            assert(before@ =~= text@.take(pos as int));
            assert(tail@ =~= text@.skip(pos + flag@.len()));
            let a0 = trim_start_index(tail.as_slice());
            let after = slice_of(tail.as_slice(), a0, tail.len());
            assert(after@ =~= trim_start(tail@));
            let after_s = string_of(after.as_slice());
            let (val, rest) = extract_flag_value(after_s.as_str());
            assert(after_s@ == trim_start(text@.skip(pos + flag@.len())));
            let ghost bv = before@;
            let mut joined = before;
            joined.push(' ');
            let rv = chars_of(rest.as_str());
            push_all(&mut joined, rv.as_slice());
            assert(joined@ =~= bv + seq![' '] + rest@);
            let t = trim_vec(joined.as_slice());
            let vv = chars_of(val.as_str());
            let o = if vv.len() == 0 {
                None
            } else {
                Some(val)
            };
            (o, t)
        },
        None => (None, text),
    }
}

/// Parse add arguments: optional --source, --topic flags, and the remaining content.
pub fn parse_note_add_args(args: &str) -> (r: (String, Option<String>, Option<String>))
    ensures
        (r.0@, opt_view(r.1), opt_view(r.2)) == note_add_args(args@),
{
    let a = chars_of(args);
    let (source, r1) = take_flag_exec(a, "--source");
    let (topic, r2) = take_flag_exec(r1, "--topic");
    let t = trim_vec(r2.as_slice());
    let c = unquote_exec(t.as_slice());
    (string_of(c.as_slice()), source, topic)
}

// ───────────────────────── /contact ─────────────────────────

/// Where contact logs are kept, one JSONL file per source.
pub const CONTACTS_DIR: &'static str = ".journalist/contacts";

/// A single contact log entry stored as one JSONL line.
#[derive(Clone, Debug)]
pub struct ContactLog {
    pub name: String,
    pub summary: String,
    pub timestamp: String,
}

/// A character kept in a file name: alphanumeric, `_` or `-`; anything
/// else becomes `_`.
pub open spec fn safe_char(c: char) -> char {
    if alnum(c) || c == '_' || c == '-' {
        c
    } else {
        '_'
    }
}

/// `.journalist/contacts/<name with unsafe characters as _>.jsonl`.
pub open spec fn contact_file_text(name: Seq<char>) -> Seq<char> {
    CONTACTS_DIR@ + "/"@ + name.map_values(|c: char| safe_char(c)) + ".jsonl"@
}

/// Return the JSONL file path for a given source name.
pub fn contact_file_for(name: &str) -> (r: String)
    ensures
        r@ == contact_file_text(name@),
{
    let v = chars_of(name);
    let mut safe: Vec<char> = Vec::new();
    let mut i: usize = 0;
    while i < v.len()
        invariant
            i <= v@.len(),
            safe@ == v@.take(i as int).map_values(|c: char| safe_char(c)),
        decreases v@.len() - i,
    {
        let c = v[i];
        let keep = is_alphanumeric(c) || c == '_' || c == '-';
        assert(keep == (alnum(c) || c == '_' || c == '-'));
        safe.push(if keep {
            c
        } else {
            '_'
        });
        assert(v@.take(i + 1).map_values(|c: char| safe_char(c)) =~= v@.take(i as int).map_values(
            |c: char| safe_char(c),
        ).push(safe_char(c)));
        i += 1;
    }
    assert(v@.take(v@.len() as int) =~= v@);
    let mut out = chars_of(CONTACTS_DIR);
    push_str(&mut out, "/");
    push_all(&mut out, safe.as_slice());
    push_str(&mut out, ".jsonl");
    string_of(out.as_slice())
}

/// What `parse_contact_log_args` returns: the first word as the name and
/// the rest, unquoted, as the summary.
pub open spec fn contact_log_args(args: Seq<char>) -> (Seq<char>, Seq<char>) {
    let a = trim(args);
    if a.len() == 0 {
        (seq![], seq![])
    } else {
        match split_once_ws(a) {
            Some((n, r)) => (n, unquote_summary(trim(r))),
            None => (a, unquote_summary(seq![])),
        }
    }
}

/// A summary without surrounding `"` then `'`, trimmed.
pub open spec fn unquote_summary(s: Seq<char>) -> Seq<char> {
    trim(trim_char(trim_char(s, '"'), '\''))
}

/// Parse `/contact log` args: first word is name, rest is summary (optionally quoted).
pub fn parse_contact_log_args(args: &str) -> (r: (String, String))
    ensures
        (r.0@, r.1@) == contact_log_args(args@),
{
    let v = chars_of(args);
    let a = trim_vec(v.as_slice());
    if a.len() == 0 {
        return (string_of(&[]), string_of(&[]));
    }
    match split_once_ws_exec(a.as_slice()) {
        Some((n, r)) => {
            let rt = trim_vec(r.as_slice());
            let x = trim_char_exec(rt.as_slice(), '"');
            let y = trim_char_exec(x.as_slice(), '\'');
            let z = trim_vec(y.as_slice());
            (string_of(n.as_slice()), string_of(z.as_slice()))
        },
        None => {
            let e: Vec<char> = Vec::new();
            let x = trim_char_exec(e.as_slice(), '"');
            let y = trim_char_exec(x.as_slice(), '\'');
            let z = trim_vec(y.as_slice());
            (string_of(a.as_slice()), string_of(z.as_slice()))
        },
    }
}

// ───────────────────────── timestamps ─────────────────────────

/// Reading `s` into runs between non-digit characters: the finished runs and
/// the run being read.
pub open spec fn digit_runs_state(s: Seq<char>) -> (Seq<Seq<char>>, Seq<char>)
    decreases s.len(),
{
    if s.len() == 0 {
        (seq![], seq![])
    } else {
        let (done, cur) = digit_runs_state(s.drop_last());
        if is_digit(s.last()) {
            (done, cur.push(s.last()))
        } else {
            (done.push(cur), seq![])
        }
    }
}

/// `str::split(|c| !c.is_ascii_digit())`: the (possibly empty) runs of
/// digits between the other characters.
pub open spec fn digit_runs(s: Seq<char>) -> Seq<Seq<char>> {
    let (done, cur) = digit_runs_state(s);
    done.push(cur)
}

fn digit_runs_exec(s: &[char]) -> (r: Vec<Vec<char>>)
    ensures
        r.deep_view() == digit_runs(s@),
{
    let mut done: Vec<Vec<char>> = Vec::new();
    let mut cur: Vec<char> = Vec::new();
    let mut i: usize = 0;
    assert(s@.take(0) =~= Seq::<char>::empty());
    assert(done.deep_view() =~= Seq::<Seq<char>>::empty());
    while i < s.len()
        invariant
            i <= s@.len(),
            (done.deep_view(), cur@) == digit_runs_state(s@.take(i as int)),
        decreases s@.len() - i,
    {
        let c = s[i];
        assert(s@.take(i + 1).drop_last() =~= s@.take(i as int));
        assert(s@.take(i + 1).last() == c);
        if '0' <= c && c <= '9' {
            cur.push(c);
        } else {
            push_word(&mut done, cur);
            cur = Vec::new();
            assert(cur@ =~= Seq::<char>::empty());
        }
        i += 1;
    }
    assert(s@.take(s@.len() as int) =~= s@);
    push_word(&mut done, cur);
    done
}

/// Days of the months before (0-based) month `k`: the common lengths, 30
/// for a month past December, and February's extra day in a leap year.
pub open spec fn month_table(m: int) -> int {
    if m == 1 {
        28
    } else if m == 3 || m == 5 || m == 8 || m == 10 || m >= 12 {
        30
    } else {
        31
    }
}

pub open spec fn ts_month_days(k: nat, lp: bool) -> nat
    decreases k,
{
    if k == 0 {
        0
    } else {
        ts_month_days((k - 1) as nat, lp) + month_table(k - 1) as nat + if k - 1 == 1 && lp {
            1nat
        } else {
            0nat
        }
    }
}

/// `n - 1`, but not below 0.
pub open spec fn dec_sat(n: nat) -> nat {
    if n > 0 {
        (n - 1) as nat
    } else {
        0
    }
}

/// The days counted by `parse_timestamp_secs` before the given day.
pub open spec fn ts_days(y: nat, mo: nat, d: nat) -> nat {
    (days_before_year(y as int) + ts_month_days(dec_sat(mo), leap(y as int)) + dec_sat(d)) as nat
}

/// A field of the timestamp read as `u64`, or 0 when missing or unreadable.
pub open spec fn ts_field(p: Seq<Seq<char>>, i: int) -> nat {
    if p.len() > i {
        match parse_digits(p[i], u64::MAX as nat) {
            Some(v) => v,
            None => 0,
        }
    } else {
        0
    }
}

/// What `parse_timestamp_secs(ts)` returns: the seconds of a
/// `YYYY-MM-DDTHH:MM:SS`-like text, from its runs of digits.
pub open spec fn ts_secs(ts: Seq<char>) -> Option<nat> {
    let p = digit_runs(ts);
    if p.len() < 3 {
        None
    } else {
        match (
            parse_digits(p[0], u64::MAX as nat),
            parse_digits(p[1], u64::MAX as nat),
            parse_digits(p[2], u64::MAX as nat),
        ) {
            (Some(y), Some(mo), Some(d)) => Some(
                ts_days(y, mo, d) * 86400 + ts_field(p, 3) * 3600 + ts_field(p, 4) * 60 + ts_field(
                    p,
                    5,
                ),
            ),
            _ => None,
        }
    }
}

/// Adding up the seconds of `ts` stays within `u64`.
pub open spec fn ts_fits(ts: Seq<char>) -> bool {
    ts_secs(ts) matches Some(v) ==> v <= u64::MAX
}

proof fn lemma_days_before_year_mono(a: int, b: int)
    requires
        a <= b,
    ensures
        days_before_year(a) <= days_before_year(b),
    decreases b - a,
{
    if a < b {
        lemma_days_before_year_mono(a, b - 1);
    }
}

proof fn lemma_ts_month_days_mono(a: nat, b: nat, lp: bool)
    requires
        a <= b,
    ensures
        ts_month_days(a, lp) <= ts_month_days(b, lp),
    decreases b - a,
{
    if a < b {
        lemma_ts_month_days_mono(a, (b - 1) as nat, lp);
    }
}

fn field_or_zero(p: &Vec<Vec<char>>, i: usize) -> (r: u64)
    ensures
        r as nat == ts_field(p.deep_view(), i as int),
{
    if p.len() > i {
        assert(p[i as int]@ == p.deep_view()[i as int]);
        match parse_digits_exec(p[i].as_slice(), u64::MAX) {
            Some(v) => v,
            None => 0,
        }
    } else {
        0
    }
}

/// Parse the timestamp string into seconds since epoch (approximate, for comparison).
pub fn parse_timestamp_secs(ts: &str) -> (r: Option<u64>)
    requires
        ts_fits(ts@),
    ensures
        match r {
            Some(v) => ts_secs(ts@) == Some(v as nat),
            None => ts_secs(ts@) is None,
        },
{
    let v = chars_of(ts);
    let parts = digit_runs_exec(v.as_slice());
    let ghost pv = parts.deep_view();
    if parts.len() < 3 {
        return None;
    }
    assert(parts[0]@ == pv[0]);
    assert(parts[1]@ == pv[1]);
    assert(parts[2]@ == pv[2]);
    let year = match parse_digits_exec(parts[0].as_slice(), u64::MAX) {
        Some(y) => y,
        None => return None,
    };
    let month = match parse_digits_exec(parts[1].as_slice(), u64::MAX) {
        Some(m) => m,
        None => return None,
    };
    let day = match parse_digits_exec(parts[2].as_slice(), u64::MAX) {
        Some(d) => d,
        None => return None,
    };
    let hour = field_or_zero(&parts, 3);
    let min = field_or_zero(&parts, 4);
    let sec = field_or_zero(&parts, 5);
    let ghost total = ts_secs(ts@)->0;
    let ghost lp = leap(year as int);
    let ghost dd = ts_days(year as nat, month as nat, day as nat);
    assert(total == dd * 86400 + hour * 3600 + min * 60 + sec);
    assert(dd * 86400 <= total) by (nonlinear_arith)
        requires
            total == dd * 86400 + hour * 3600 + min * 60 + sec,
            hour >= 0,
            min >= 0,
            sec >= 0,
    ;
    assert(dd <= u64::MAX);
    let mut days: u64 = 0;
    let mut y: u64 = 1970;
    proof {
        if year >= 1970 {
            lemma_days_before_year_mono(1970, year as int);
        }
    }
    while y < year
        invariant
            1970 <= y,
            y <= year || year < 1970,
            year < 1970 ==> y == 1970,
            days as int == days_before_year(y as int),
            days_before_year(year as int) <= dd,
            dd <= u64::MAX,
        decreases year - y,
    {
        proof {
            lemma_days_before_year_mono(y + 1, year as int);
        }
        let lp_y = (y % 4 == 0 && y % 100 != 0) || y % 400 == 0;
        if lp_y {
            days = days + 366;
        } else {
            days = days + 365;
        }
        y = y + 1;
    }
    assert(days as int == days_before_year(year as int)) by {
        if year < 1970 {
            assert(y == 1970);
        }
    }
    let is_leap = (year % 4 == 0 && year % 100 != 0) || year % 400 == 0;
    assert(is_leap == lp);
    let k: u64 = if month > 0 {
        month - 1
    } else {
        0
    };
    proof {
        lemma_ts_month_days_mono(0, k as nat, lp);
    }
    let mut m: u64 = 0;
    let ghost base = days as int;
    while m < k
        invariant
            m <= k,
            k == dec_sat(month as nat),
            is_leap == lp,
            base == days_before_year(year as int),
            days as int == base + ts_month_days(m as nat, lp),
            base + ts_month_days(k as nat, lp) <= dd,
            dd <= u64::MAX,
        decreases k - m,
    {
        proof {
            lemma_ts_month_days_mono((m + 1) as nat, k as nat, lp);
        }
        let md: u64 = if m == 1 {
            28
        } else if m == 3 || m == 5 || m == 8 || m == 10 || m >= 12 {
            30
        } else {
            31
        };
        days = days + md;
        if m == 1 && is_leap {
            days = days + 1;
        }
        m = m + 1;
    }
    let dsub: u64 = if day > 0 {
        day - 1
    } else {
        0
    };
    days = days + dsub;
    assert(days as nat == dd);
    assert(hour * 3600 <= total && min * 60 <= total) by (nonlinear_arith)
        requires
            total == dd * 86400 + hour * 3600 + min * 60 + sec,
            dd >= 0,
            hour >= 0,
            min >= 0,
            sec >= 0,
    ;
    Some(days * 86400 + hour * 3600 + min * 60 + sec)
}

/// The latest of the readable timestamps.
pub open spec fn latest_secs(ts: Seq<Seq<char>>) -> Option<nat>
    decreases ts.len(),
{
    if ts.len() == 0 {
        None
    } else {
        let prev = latest_secs(ts.drop_last());
        match ts_secs(ts.last()) {
            None => prev,
            Some(v) => match prev {
                Some(p) => if p >= v {
                    Some(p)
                } else {
                    Some(v)
                },
                None => Some(v),
            },
        }
    }
}

/// The last contact, in seconds, among the timestamps of a source's logs.
pub fn last_contact_secs(timestamps: &Vec<String>) -> (r: Option<u64>)
    requires
        forall|i: int| 0 <= i < timestamps@.len() ==> ts_fits(#[trigger] timestamps@[i]@),
    ensures
        match r {
            Some(v) => latest_secs(timestamps@.map_values(|t: String| t@)) == Some(v as nat),
            None => latest_secs(timestamps@.map_values(|t: String| t@)) is None,
        },
{
    let ghost tv = timestamps@.map_values(|t: String| t@);
    let mut best: Option<u64> = None;
    let mut i: usize = 0;
    assert(tv.take(0) =~= Seq::<Seq<char>>::empty());
    while i < timestamps.len()
        invariant
            i <= timestamps@.len(),
            tv == timestamps@.map_values(|t: String| t@),
            forall|k: int| 0 <= k < timestamps@.len() ==> ts_fits(#[trigger] timestamps@[k]@),
            match best {
                Some(v) => latest_secs(tv.take(i as int)) == Some(v as nat),
                None => latest_secs(tv.take(i as int)) is None,
            },
        decreases timestamps@.len() - i,
    {
        assert(tv.take(i + 1).drop_last() =~= tv.take(i as int));
        assert(tv.take(i + 1).last() == timestamps[i as int]@);
        assert(ts_fits(timestamps@[i as int]@));
        match parse_timestamp_secs(timestamps[i].as_str()) {
            None => {},
            Some(v) => {
                best = match best {
                    Some(p) => if p >= v {
                        Some(p)
                    } else {
                        Some(v)
                    },
                    None => Some(v),
                };
            },
        }
        i += 1;
    }
    assert(tv.take(timestamps@.len() as int) =~= tv);
    best
}

/// For `/contact stale`: when the last contact is 30 days or more before
/// `now` (or there is none), how long ago it was; otherwise nothing.
pub open spec fn stale_since(last: Option<nat>, now: nat) -> Option<Seq<char>> {
    let cutoff = if now >= 30 * 86400 {
        now - 30 * 86400
    } else {
        0
    };
    match last {
        Some(t) => if t < cutoff {
            Some(dec(((now - t) / 86400) as nat) + "일 전"@)
        } else {
            None
        },
        None => Some("접촉 기록 없음"@),
    }
}

/// Whether a source is stale, and since when, from its last contact.
pub fn stale_contact(last: Option<u64>, now: u64) -> (r: Option<String>)
    ensures
        opt_view(r) == stale_since(
            match last {
                Some(t) => Some(t as nat),
                None => None,
            },
            now as nat,
        ),
{
    let cutoff = if now >= 30 * 86400 {
        now - 30 * 86400
    } else {
        0
    };
    match last {
        Some(t) => if t < cutoff {
            let mut v: Vec<char> = Vec::new();
            push_dec(&mut v, (now - t) / 86400);
            push_str(&mut v, "일 전");
            Some(string_of(v.as_slice()))
        } else {
            None
        },
        None => Some(string_of(chars_of("접촉 기록 없음").as_slice())),
    }
}

} // verus!
