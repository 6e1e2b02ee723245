//! Gregorian calendar arithmetic on day counts and `YYYY-MM-DD` text.
use vstd::prelude::*;
use crate::text::{
    all_digits, digits_value, lemma_dec_pad_digits, lemma_digits_no_dash, lemma_split_three,
    chars_of, dec_pad, lemma_somes_push, parse_digits, parse_digits_exec, parse_i64_exec,
    parse_int, push_dec_pad, slice_of, somes, split_char, split_on, string_of,
};

verus! {

/// Whether a year of the Gregorian calendar has 366 days.
pub open spec fn leap(y: int) -> bool {
    (y % 4 == 0 && y % 100 != 0) || y % 400 == 0
}

pub open spec fn year_len(y: int) -> int {
    if leap(y) {
        366
    } else {
        365
    }
}

/// Days of month `m` (1-based) of year `y`.
pub open spec fn month_len(y: int, m: int) -> int {
    if m == 2 {
        if leap(y) {
            29
        } else {
            28
        }
    } else if m == 4 || m == 6 || m == 9 || m == 11 {
        30
    } else {
        31
    }
}

pub fn is_leap_year(y: i64) -> (r: bool)
    ensures
        r == leap(y as int),
{
    (y % 4 == 0 && y % 100 != 0) || y % 400 == 0
}

fn month_len_exec(y: i64, m: i64) -> (r: i64)
    ensures
        r == month_len(y as int, m as int),
{
    if m == 2 {
        if is_leap_year(y) {
            29
        } else {
            28
        }
    } else if m == 4 || m == 6 || m == 9 || m == 11 {
        30
    } else {
        31
    }
}

// ───────────────────────── day counts since 1970-01-01 ─────────────────────────

/// Days in the years from 1970 up to (not including) `y`.
pub open spec fn days_before_year(y: int) -> int
    decreases y - 1970,
{
    if y <= 1970 {
        0
    } else {
        days_before_year(y - 1) + year_len(y - 1)
    }
}

/// Days in the months of `y` before month `m`.
pub open spec fn days_before_month(y: int, m: int) -> int
    decreases m,
{
    if m <= 1 {
        0
    } else {
        days_before_month(y, m - 1) + month_len(y, m - 1)
    }
}

/// The number of days from 1970-01-01 to `y-m-d`.
pub open spec fn epoch_day(y: int, m: int, d: int) -> int {
    days_before_year(y) + days_before_month(y, m) + d - 1
}

/// A real date at or after 1970-01-01.
pub open spec fn valid_ymd(y: int, m: int, d: int) -> bool {
    y >= 1970 && 1 <= m <= 12 && 1 <= d <= month_len(y, m)
}

/// Splitting `rem` days from the start of year `y` into whole years.
pub open spec fn year_split(rem: int, y: int) -> (int, int)
    decreases rem,
{
    if rem < year_len(y) {
        (y, rem)
    } else {
        year_split(rem - year_len(y), y + 1)
    }
}

/// Splitting `rem` days into whole months, from month index `i` (0-based).
/// Running out of months leaves the index at 0.
pub open spec fn month_split(rem: int, y: int, i: int) -> (int, int)
    decreases 12 - i,
{
    if i >= 12 {
        (0, rem)
    } else if rem < month_len(y, i + 1) {
        (i, rem)
    } else {
        month_split(rem - month_len(y, i + 1), y, i + 1)
    }
}

/// The `YYYY-MM-DD` text `epoch_days_to_date` writes for day `n`
/// (`n` at most `i64::MAX`).
pub open spec fn epoch_date_text(n: int) -> Seq<char> {
    let (y, r1) = year_split(n, 1970);
    let (mi, r2) = month_split(r1, y, 0);
    dec_pad(y as nat, 4) + seq!['-'] + dec_pad((mi + 1) as nat, 2) + seq!['-'] + dec_pad(
        (r2 + 1) as nat,
        2,
    )
}

/// What `epoch_days_to_date(days)` returns. A count beyond `i64::MAX` is
/// read as the negative `i64` with the same bits, which lands in January 1970
/// with a day number at or below zero.
pub open spec fn epoch_days_text(days: nat) -> Seq<char> {
    if days <= i64::MAX {
        epoch_date_text(days as int)
    } else {
        let day = days - 0x1_0000_0000_0000_0000 + 1;
        "1970-01-"@ + if day == 0 {
            seq!['0', '0']
        } else {
            seq!['-'] + crate::text::dec((-day) as nat)
        }
    }
}

proof fn lemma_year_split_bounds(rem: int, y: int)
    requires
        rem >= 0,
        y >= 1970,
    ensures
        year_split(rem, y).0 >= y,
        0 <= year_split(rem, y).1 < year_len(year_split(rem, y).0),
        (year_split(rem, y).0 - y) * 365 <= rem,
    decreases rem,
{
    if rem >= year_len(y) {
        lemma_year_split_bounds(rem - year_len(y), y + 1);
    }
}

proof fn lemma_month_split_bounds(rem: int, y: int, i: int)
    requires
        rem >= 0,
        0 <= i <= 12,
    ensures
        0 <= month_split(rem, y, i).0 < 12,
        month_split(rem, y, i).1 >= 0,
        month_split(rem, y, i).1 <= rem,
    decreases 12 - i,
{
    if i < 12 && rem >= month_len(y, i + 1) {
        lemma_month_split_bounds(rem - month_len(y, i + 1), y, i + 1);
    }
}

/// The date text of day `n` after 1970-01-01.
fn epoch_date_chars(n: i64) -> (r: Vec<char>)
    requires
        n >= 0,
    ensures
        r@ == epoch_date_text(n as int),
{
    let mut y: i64 = 1970;
    let mut remaining: i64 = n;
    loop
        invariant
            y >= 1970,
            remaining >= 0,
            (y - 1970) * 365 <= n - remaining,
            n >= 0,
            year_split(n as int, 1970) == year_split(remaining as int, y as int),
        ensures
            y >= 1970,
            0 <= remaining < year_len(y as int),
            year_split(n as int, 1970) == year_split(remaining as int, y as int),
        decreases remaining,
    {
        let days_in_year: i64 = if is_leap_year(y) {
            366
        } else {
            365
        };
        if remaining < days_in_year {
            break;
        }
        remaining = remaining - days_in_year;
        y = y + 1;
    }
    assert(year_split(n as int, 1970) == (y as int, remaining as int));
    let mut i: i64 = 0;
    let ghost r1: int = remaining as int;
    assert(r1 < 366);
    loop
        invariant
            0 <= i <= 12,
            remaining >= 0,
            remaining <= r1,
            r1 < 366,
            month_split(r1, y as int, 0) == month_split(remaining as int, y as int, i as int),
        ensures
            0 <= i <= 12,
            0 <= remaining <= r1,
            r1 < 366,
            i < 12 ==> remaining < month_len(y as int, i + 1),
            month_split(r1, y as int, 0) == month_split(remaining as int, y as int, i as int),
        decreases 12 - i,
    {
        if i >= 12 {
            break;
        }
        let md = month_len_exec(y, i + 1);
        if remaining < md {
            break;
        }
        remaining = remaining - md;
        i = i + 1;
    }
    if i >= 12 {
        i = 0;
    }
    assert(month_split(r1, y as int, 0) == (i as int, remaining as int));
    let mut out: Vec<char> = Vec::new();
    push_dec_pad(&mut out, y as u64, 4);
    out.push('-');
    push_dec_pad(&mut out, (i + 1) as u64, 2);
    out.push('-');
    push_dec_pad(&mut out, (remaining + 1) as u64, 2);
    out
}

/// Convert days since Unix epoch to YYYY-MM-DD string.
pub fn epoch_days_to_date(days: u64) -> (r: String)
    ensures
        r@ == epoch_days_text(days as nat),
{
    if days <= i64::MAX as u64 {
        let v = epoch_date_chars(days as i64);
        string_of(v.as_slice())
    } else {
        let day: i128 = days as i128 - 0x1_0000_0000_0000_0000i128 + 1;
        let mut out = chars_of("1970-01-");
        if day == 0 {
            out.push('0');
            out.push('0');
        } else {
            out.push('-');
            crate::text::push_dec(&mut out, (0 - day) as u64);
        }
        string_of(out.as_slice())
    }
}


/// The date thirty days before the instant `now_secs` seconds after the epoch.
pub fn thirty_days_before(now_secs: u64) -> (r: String)
    requires
        now_secs >= 2_592_000,
    ensures
        r@ == epoch_days_text(((now_secs - 2_592_000) / 86400) as nat),
{
    epoch_days_to_date((now_secs - 2_592_000) / 86400)
}

/// The date thirty days ago (UTC), by the system clock. A clock that reads
/// less than thirty days after the epoch gives the epoch's date.
pub fn thirty_days_ago() -> (r: String)
    ensures
        exists|d: nat| r@ == #[trigger] epoch_days_text(d),
{
    let now = unix_now_secs();
    if now >= 2_592_000 {
        thirty_days_before(now)
    } else {
        epoch_days_to_date(0)
    }
}

/// The date text of day `days` after 1970-01-01.
pub(crate) fn epoch_date_vec(days: u64) -> (r: Vec<char>)
    requires
        days <= i64::MAX,
    ensures
        r@ == epoch_date_text(days as int),
{
    epoch_date_chars(days as i64)
}

/// The system clock: seconds since the Unix epoch (`SystemTime::now()`,
/// 0 when the clock reads a time before the epoch). Nothing is promised of
/// the value.
#[verifier::external_body]
pub(crate) fn unix_now_secs() -> (r: u64) {
    std::time::SystemTime::now().duration_since(std::time::UNIX_EPOCH).unwrap_or_default().as_secs()
}


// ───────────────────────── YYYY-MM-DD text ─────────────────────────

/// The date a `YYYY-MM-DD` text names: exactly three `-`-separated runs of
/// digits (each within `u32`) making a real date in or after 1970.
pub open spec fn parse_ymd(s: Seq<char>) -> Option<(int, int, int)> {
    let p = split_on(s, '-');
    if p.len() != 3 {
        None
    } else {
        match (parse_digits(p[0], u32::MAX as nat), parse_digits(p[1], u32::MAX as nat), parse_digits(p[2], u32::MAX as nat)) {
            (Some(y), Some(m), Some(d)) => if valid_ymd(y as int, m as int, d as int) {
                Some((y as int, m as int, d as int))
            } else {
                None
            },
            _ => None,
        }
    }
}

proof fn lemma_days_before_year_bound(y: int)
    requires
        y >= 1970,
    ensures
        365 * (y - 1970) <= days_before_year(y) <= 366 * (y - 1970),
    decreases y - 1970,
{
    if y > 1970 {
        lemma_days_before_year_bound(y - 1);
    }
}

proof fn lemma_days_before_month_bound(y: int, m: int)
    requires
        1 <= m <= 13,
    ensures
        0 <= days_before_month(y, m) <= 31 * (m - 1),
    decreases m,
{
    if m > 1 {
        lemma_days_before_month_bound(y, m - 1);
    }
}

/// The day count of a valid date whose year fits in `u32`.
fn epoch_day_exec(y: u64, m: u64, d: u64) -> (r: i64)
    requires
        valid_ymd(y as int, m as int, d as int),
        y <= u32::MAX,
    ensures
        r == epoch_day(y as int, m as int, d as int),
        0 <= r <= 366 * (y - 1970) + 400,
{
    let mut total: i64 = 0;
    let mut yy: u64 = 1970;
    proof {
        lemma_days_before_year_bound(y as int);
    }
    while yy < y
        invariant
            1970 <= yy <= y <= u32::MAX,
            total == days_before_year(yy as int),
            365 * (yy - 1970) <= total <= 366 * (yy - 1970),
        decreases y - yy,
    {
        let yl: i64 = if is_leap_year(yy as i64) {
            366
        } else {
            365
        };
        total = total + yl;
        yy = yy + 1;
    }
    let mut mm: u64 = 1;
    let ghost base = total;
    proof {
        lemma_days_before_month_bound(y as int, m as int);
    }
    while mm < m
        invariant
            1 <= mm <= m <= 12,
            y <= u32::MAX,
            base == days_before_year(y as int),
            base <= 366 * (y - 1970),
            total == base + days_before_month(y as int, mm as int),
            0 <= days_before_month(y as int, mm as int) <= 31 * (mm - 1),
        decreases m - mm,
    {
        total = total + month_len_exec(y as i64, mm as i64);
        mm = mm + 1;
    }
    total + (d as i64) - 1
}

/// Reads a `YYYY-MM-DD` text.
fn parse_ymd_exec(s: &[char]) -> (r: Option<(u64, u64, u64)>)
    ensures
        match r {
            Some((y, m, d)) => parse_ymd(s@) == Some((y as int, m as int, d as int)) && y
                <= u32::MAX,
            None => parse_ymd(s@) is None,
        },
{
    let parts = split_char(s, '-');
    if parts.len() != 3 {
        return None;
    }
    assert(parts[0]@ == split_on(s@, '-')[0]);
    assert(parts[1]@ == split_on(s@, '-')[1]);
    assert(parts[2]@ == split_on(s@, '-')[2]);
    let y = parse_digits_exec(parts[0].as_slice(), u32::MAX as u64);
    let m = parse_digits_exec(parts[1].as_slice(), u32::MAX as u64);
    let d = parse_digits_exec(parts[2].as_slice(), u32::MAX as u64);
    match (y, m, d) {
        (Some(y), Some(m), Some(d)) => {
            if y >= 1970 && 1 <= m && m <= 12 && 1 <= d && (d as i64) <= month_len_exec(
                y as i64,
                m as i64,
            ) {
                Some((y, m, d))
            } else {
                None
            }
        },
        _ => None,
    }
}

/// The weekday of day `n` after 1970-01-01, Monday = 0 … Sunday = 6
/// (1970-01-01 was a Thursday).
pub open spec fn weekday(n: int) -> int {
    (n + 3) % 7
}

/// What `day_of_week` returns for a date text.
pub open spec fn day_of_week_of(s: Seq<char>) -> Option<int> {
    match parse_ymd(s) {
        Some((y, m, d)) => Some(weekday(epoch_day(y, m, d))),
        None => None,
    }
}

/// The weekday of a `YYYY-MM-DD` date, Monday = 0 … Sunday = 6.
pub fn day_of_week(date: &str) -> (r: Option<u32>)
    ensures
        match r {
            Some(w) => day_of_week_of(date@) == Some(w as int),
            None => day_of_week_of(date@) is None,
        },
{
    let v = chars_of(date);
    match parse_ymd_exec(v.as_slice()) {
        Some((y, m, d)) => {
            let n = epoch_day_exec(y, m, d);
            Some(((n + 3) % 7) as u32)
        },
        None => None,
    }
}

/// The next Monday-to-Friday day after day `n`.
pub open spec fn next_weekday(n: int) -> int {
    if weekday(n + 1) < 5 {
        n + 1
    } else if weekday(n + 1) == 5 {
        n + 3
    } else {
        n + 2
    }
}

/// Day `n` moved forward by `k` business days.
pub open spec fn add_weekdays(n: int, k: nat) -> int
    decreases k,
{
    if k == 0 {
        n
    } else {
        next_weekday(add_weekdays(n, (k - 1) as nat))
    }
}

/// What `add_business_days(start, k)` returns: `None` for a text that is not
/// a date; the start text itself for zero days; otherwise the date `k`
/// business days (Monday to Friday) later.
pub open spec fn business_days_after(start: Seq<char>, k: nat) -> Option<Seq<char>> {
    match parse_ymd(start) {
        None => None,
        Some((y, m, d)) => if k == 0 {
            Some(start)
        } else {
            Some(epoch_date_text(add_weekdays(epoch_day(y, m, d), k)))
        },
    }
}

pub proof fn lemma_add_weekdays_bounds(n: int, k: nat)
    ensures
        n + k <= add_weekdays(n, k) <= n + 3 * k,
    decreases k,
{
    if k > 0 {
        lemma_add_weekdays_bounds(n, (k - 1) as nat);
    }
}

/// Moving forward `a` business days and then `b` more is moving `a + b`;
/// each further business day is a later day.
pub proof fn lemma_add_weekdays_compose(n: int, a: nat, b: nat)
    ensures
        add_weekdays(n, a + b) == add_weekdays(add_weekdays(n, a), b),
        b > 0 ==> add_weekdays(n, a) < add_weekdays(n, a + b),
    decreases b,
{
    if b > 0 {
        lemma_add_weekdays_compose(n, a, (b - 1) as nat);
        assert((a + b - 1) as nat == a + (b - 1) as nat);
    }
}

/// Calculate a date that is `business_days` business days (Mon-Fri) after the given
/// "YYYY-MM-DD" date string. Returns "YYYY-MM-DD".
pub fn add_business_days(start_date: &str, business_days: u32) -> (r: Option<String>)
    ensures
        match r {
            Some(s) => business_days_after(start_date@, business_days as nat) == Some(s@),
            None => business_days_after(start_date@, business_days as nat) is None,
        },
{
    let v = chars_of(start_date);
    let (y, m, d) = match parse_ymd_exec(v.as_slice()) {
        Some(t) => t,
        None => return None,
    };
    if business_days == 0 {
        return Some(string_of(v.as_slice()));
    }
    let start = epoch_day_exec(y, m, d);
    let mut n: i64 = start;
    let mut k: u32 = 0;
    proof {
        lemma_add_weekdays_bounds(start as int, business_days as nat);
    }
    while k < business_days
        invariant
            k <= business_days,
            0 <= start <= 366 * (u32::MAX - 1970) + 400,
            n == add_weekdays(start as int, k as nat),
            start + k <= n <= start + 3 * k,
        decreases business_days - k,
    {
        let w = (n + 1 + 3) % 7;
        if w < 5 {
            n = n + 1;
        } else if w == 5 {
            n = n + 3;
        } else {
            n = n + 2;
        }
        k = k + 1;
    }
    let out = epoch_date_chars(n);
    Some(string_of(out.as_slice()))
}

// ───────────────────────── day totals from year 1 ─────────────────────────

/// The numbers of a date text: its `-`-separated pieces that read as `i64`,
/// the others dropped.
pub open spec fn dash_numbers(s: Seq<char>) -> Seq<int> {
    somes(split_on(s, '-').map_values(|p: Seq<char>| parse_int(p, i64::MIN as int, i64::MAX as int)))
}

/// Days in the years 1 up to (not including) `y`.
pub open spec fn days_before_year1(y: int) -> int
    decreases y,
{
    if y <= 1 {
        0
    } else {
        days_before_year1(y - 1) + year_len(y - 1)
    }
}

/// Length of month `m` in a common year (months 1 to 12).
pub open spec fn common_month_len(m: int) -> int {
    if m == 2 {
        28
    } else if m == 4 || m == 6 || m == 9 || m == 11 {
        30
    } else {
        31
    }
}

/// Days in the months before month `m` of year `y`.
pub open spec fn month_total(y: int, m: int) -> int
    decreases m,
{
    if m <= 1 {
        0
    } else {
        month_total(y, m - 1) + common_month_len(m - 1) + if m - 1 == 2 && leap(y) {
            1int
        } else {
            0int
        }
    }
}

/// The running day number of `y-m-d` counted from the year 1.
pub open spec fn day_total(y: int, m: int, d: int) -> int {
    days_before_year1(y) + month_total(y, m) + d
}

/// The day number of a date text, if it has exactly three numbers.
pub open spec fn text_day_total(s: Seq<char>) -> Option<int> {
    let p = dash_numbers(s);
    if p.len() == 3 {
        Some(day_total(p[0], p[1], p[2]))
    } else {
        None
    }
}

/// Reading a date text stays in bounds: a month of at most 13 and a day
/// number that fits in `i64`.
pub open spec fn text_day_total_fits(s: Seq<char>) -> bool {
    let p = dash_numbers(s);
    p.len() == 3 ==> p[1] <= 13 && day_total(p[0], p[1], p[2]) <= i64::MAX
}

/// What `calendar_days_between(start, end)` returns: the difference of the
/// two day numbers (the end is read first).
pub open spec fn days_between(start: Seq<char>, end: Seq<char>) -> Option<int> {
    match text_day_total(end) {
        None => None,
        Some(e) => match text_day_total(start) {
            None => None,
            Some(s) => Some(e - s),
        },
    }
}

proof fn lemma_split_pieces_no_sep(s: Seq<char>, sep: char)
    ensures
        forall|i: int, j: int|
            0 <= i < split_on(s, sep).len() && 0 <= j < split_on(s, sep)[i].len() ==> #[trigger] split_on(
                s,
                sep,
            )[i][j] != sep,
    decreases s.len(),
{
    if s.len() > 0 {
        lemma_split_pieces_no_sep(s.drop_last(), sep);
        lemma_split_state_no_sep(s, sep);
    }
}

proof fn lemma_split_state_no_sep(s: Seq<char>, sep: char)
    ensures
        forall|i: int, j: int|
            0 <= i < crate::text::split_state(s, sep).0.len() && 0 <= j < crate::text::split_state(
                s,
                sep,
            ).0[i].len() ==> #[trigger] crate::text::split_state(s, sep).0[i][j] != sep,
        forall|j: int|
            0 <= j < crate::text::split_state(s, sep).1.len() ==> #[trigger] crate::text::split_state(
                s,
                sep,
            ).1[j] != sep,
    decreases s.len(),
{
    if s.len() > 0 {
        lemma_split_state_no_sep(s.drop_last(), sep);
        let (done, cur) = crate::text::split_state(s.drop_last(), sep);
        if s.last() != sep {
            assert forall|j: int| 0 <= j < cur.push(s.last()).len() implies #[trigger] cur.push(
                s.last(),
            )[j] != sep by {
                if j < cur.len() {
                    assert(cur.push(s.last())[j] == cur[j]);
                }
            }
        } else {
            assert forall|i: int, j: int|
                0 <= i < done.push(cur).len() && 0 <= j < done.push(cur)[i].len() implies #[trigger] done.push(
                cur,
            )[i][j] != sep by {
                if i < done.len() {
                    assert(done.push(cur)[i] == done[i]);
                }
            }
        }
    }
}

proof fn lemma_dash_numbers_nonneg(s: Seq<char>)
    ensures
        forall|k: int| 0 <= k < dash_numbers(s).len() ==> #[trigger] dash_numbers(s)[k] >= 0,
{
    let ps = split_on(s, '-');
    let f = |p: Seq<char>| parse_int(p, i64::MIN as int, i64::MAX as int);
    lemma_split_pieces_no_sep(s, '-');
    assert forall|i: int| 0 <= i < ps.len() implies ((#[trigger] ps.map_values(f)[i]) matches Some(
        v,
    ) ==> v >= 0) by {
        if ps[i].len() > 0 {
            assert(ps[i][0] != '-');
        }
    }
    lemma_somes_nonneg(ps.map_values(f));
}

proof fn lemma_somes_nonneg(s: Seq<Option<int>>)
    requires
        forall|i: int| 0 <= i < s.len() ==> ((#[trigger] s[i]) matches Some(v) ==> v >= 0),
    ensures
        forall|k: int| 0 <= k < somes(s).len() ==> #[trigger] somes(s)[k] >= 0,
    decreases s.len(),
{
    if s.len() > 0 {
        assert forall|i: int| 0 <= i < s.drop_last().len() implies ((#[trigger] s.drop_last()[i]) matches Some(
            v,
        ) ==> v >= 0) by {
            assert(s.drop_last()[i] == s[i]);
        }
        lemma_somes_nonneg(s.drop_last());
        assert(s[s.len() - 1] == s.last());
        let r = somes(s.drop_last());
        match s.last() {
            Some(a) => {
                assert(a >= 0);
                assert forall|k: int| 0 <= k < somes(s).len() implies #[trigger] somes(s)[k] >= 0 by {
                    if k < r.len() {
                        assert(somes(s)[k] == r[k]);
                    }
                }
            },
            None => {},
        }
    }
}

proof fn lemma_days_before_year1_mono(y: int)
    ensures
        days_before_year1(y) >= 0,
        y >= 1 ==> days_before_year1(y) >= y - 1,
    decreases y,
{
    if y > 1 {
        lemma_days_before_year1_mono(y - 1);
    }
}

proof fn lemma_month_total_nonneg(y: int, m: int)
    ensures
        month_total(y, m) >= 0,
    decreases m,
{
    if m > 1 {
        lemma_month_total_nonneg(y, m - 1);
    }
}

fn common_month_len_exec(m: i64) -> (r: i64)
    ensures
        r == common_month_len(m as int),
{
    if m == 2 {
        28
    } else if m == 4 || m == 6 || m == 9 || m == 11 {
        30
    } else {
        31
    }
}

fn text_day_total_exec(s: &[char]) -> (r: Option<i64>)
    requires
        text_day_total_fits(s@),
    ensures
        match r {
            Some(v) => text_day_total(s@) == Some(v as int),
            None => text_day_total(s@) is None,
        },
{
    let parts = split_char(s, '-');
    let ghost pv = parts.deep_view();
    let ghost f = |p: Seq<char>| parse_int(p, i64::MIN as int, i64::MAX as int);
    let mut nums: Vec<i64> = Vec::new();
    let mut j: usize = 0;
    assert(pv.take(0).map_values(f) =~= Seq::<Option<int>>::empty());
    while j < parts.len()
        invariant
            j <= parts@.len(),
            pv == parts.deep_view(),
            pv == split_on(s@, '-'),
            f == (|p: Seq<char>| parse_int(p, i64::MIN as int, i64::MAX as int)),
            nums@.map_values(|x: i64| x as int) == somes(pv.take(j as int).map_values(f)),
        decreases parts@.len() - j,
    {
        assert(parts[j as int]@ == pv[j as int]);
        assert(pv.take(j + 1).map_values(f) =~= pv.take(j as int).map_values(f).push(f(pv[j as int])));
        proof {
            lemma_somes_push(pv.take(j as int).map_values(f), f(pv[j as int]));
        }
        let ghost before = nums@;
        match parse_i64_exec(parts[j].as_slice()) {
            Some(x) => {
                nums.push(x);
                assert(nums@.map_values(|x: i64| x as int) =~= before.map_values(|x: i64| x as int).push(x as int));
            },
            None => {},
        }
        j += 1;
    }
    assert(pv.take(parts@.len() as int) =~= pv);
    let ghost p = dash_numbers(s@);
    assert(nums@.map_values(|x: i64| x as int) == p);
    if nums.len() != 3 {
        return None;
    }
    let year = nums[0];
    let month = nums[1];
    let day = nums[2];
    assert(p[0] == year && p[1] == month && p[2] == day);
    proof {
        lemma_dash_numbers_nonneg(s@);
        assert(p[0] >= 0 && p[1] >= 0 && p[2] >= 0);
        lemma_month_total_nonneg(year as int, month as int);
        lemma_days_before_year1_mono(year as int);
    }
    let mut total: i128 = 0;
    let mut y: i64 = 1;
    while y < year
        invariant
            1 <= y,
            y <= year || year < 1,
            year < 1 ==> y == 1,
            year >= 0,
            total == days_before_year1(y as int),
            0 <= total <= 366 * (y - 1),
        decreases year - y,
    {
        let yl: i128 = if is_leap_year(y) {
            366
        } else {
            365
        };
        total = total + yl;
        y = y + 1;
    }
    assert(total == days_before_year1(year as int)) by {
        if year < 1 {
            assert(days_before_year1(year as int) == 0);
        }
    }
    let mut m: i64 = 1;
    let ghost base = total as int;
    while m < month
        invariant
            1 <= m,
            m <= month || month < 1,
            month < 1 ==> m == 1,
            month <= 13,
            total == base + month_total(year as int, m as int),
            0 <= month_total(year as int, m as int) <= 31 * (m - 1),
            0 <= base <= 366 * 0x7fff_ffff_ffff_ffff,
        decreases month - m,
    {
        total = total + (common_month_len_exec(m) as i128);
        if m == 2 && is_leap_year(year) {
            total = total + 1;
        }
        m = m + 1;
    }
    assert(total == base + month_total(year as int, month as int)) by {
        if month < 1 {
            assert(month_total(year as int, month as int) == 0);
        }
    }
    total = total + (day as i128);
    Some(total as i64)
}

/// Count calendar days between two YYYY-MM-DD dates (end - start). Can be negative.
pub fn calendar_days_between(start: &str, end: &str) -> (r: Option<i64>)
    requires
        text_day_total_fits(end@),
        text_day_total(end@) is Some ==> text_day_total_fits(start@),
    ensures
        match r {
            Some(v) => days_between(start@, end@) == Some(v as int),
            None => days_between(start@, end@) is None,
        },
{
    let ev = chars_of(end);
    let e = match text_day_total_exec(ev.as_slice()) {
        Some(e) => e,
        None => return None,
    };
    let sv = chars_of(start);
    let s = match text_day_total_exec(sv.as_slice()) {
        Some(s) => s,
        None => return None,
    };
    proof {
        lemma_nonneg_total(start@);
        lemma_nonneg_total(end@);
    }
    Some(e - s)
}

proof fn lemma_nonneg_total(s: Seq<char>)
    ensures
        text_day_total(s) matches Some(v) ==> v >= 0,
{
    let p = dash_numbers(s);
    if p.len() == 3 {
        lemma_dash_numbers_nonneg(s);
        assert(p[0] >= 0 && p[2] >= 0);
        lemma_month_total_nonneg(p[0], p[1]);
        lemma_days_before_year1_mono(p[0]);
    }
}


// ───────────────────────── laws ─────────────────────────

/// The date (year, month, day) of day `n` after 1970-01-01.
pub open spec fn civil(n: int) -> (int, int, int) {
    let (y, r1) = year_split(n, 1970);
    let (mi, r2) = month_split(r1, y, 0);
    (y, mi + 1, r2 + 1)
}

/// `y-m-d` written `YYYY-MM-DD` with zero padding.
pub open spec fn date_text(y: int, m: int, d: int) -> Seq<char> {
    dec_pad(y as nat, 4) + seq!['-'] + dec_pad(m as nat, 2) + seq!['-'] + dec_pad(d as nat, 2)
}

proof fn lemma_days_before_year_step(y: int)
    requires
        y >= 1970,
    ensures
        days_before_year(y + 1) == days_before_year(y) + year_len(y),
{
}

proof fn lemma_year_split_sum(rem: int, y: int)
    requires
        rem >= 0,
        y >= 1970,
    ensures
        year_split(rem, y).0 >= y,
        0 <= year_split(rem, y).1 < year_len(year_split(rem, y).0),
        days_before_year(year_split(rem, y).0) + year_split(rem, y).1 == days_before_year(y) + rem,
    decreases rem,
{
    if rem >= year_len(y) {
        lemma_days_before_year_step(y);
        lemma_year_split_sum(rem - year_len(y), y + 1);
    }
}

proof fn lemma_months_fill_year(y: int)
    ensures
        days_before_month(y, 13) == year_len(y),
{
    reveal_with_fuel(days_before_month, 13);
}

proof fn lemma_month_split_sum(rem: int, y: int, i: int)
    requires
        rem >= 0,
        0 <= i <= 12,
        days_before_month(y, i + 1) + rem < year_len(y),
    ensures
        i <= month_split(rem, y, i).0 < 12,
        0 <= month_split(rem, y, i).1 < month_len(y, month_split(rem, y, i).0 + 1),
        days_before_month(y, month_split(rem, y, i).0 + 1) + month_split(rem, y, i).1
            == days_before_month(y, i + 1) + rem,
    decreases 12 - i,
{
    lemma_months_fill_year(y);
    if i >= 12 {
        assert(false);
    } else if rem >= month_len(y, i + 1) {
        assert(days_before_month(y, i + 2) == days_before_month(y, i + 1) + month_len(y, i + 1));
        lemma_month_split_sum(rem - month_len(y, i + 1), y, i + 1);
    }
}

/// Every day count names a real date, and that date's day count is the day
/// count itself: `civil` and `epoch_day` undo each other.
pub proof fn lemma_civil_roundtrip(n: int)
    requires
        n >= 0,
    ensures
        valid_ymd(civil(n).0, civil(n).1, civil(n).2),
        epoch_day(civil(n).0, civil(n).1, civil(n).2) == n,
{
    lemma_year_split_sum(n, 1970);
    let (y, r1) = year_split(n, 1970);
    assert(days_before_month(y, 1) == 0);
    lemma_month_split_sum(r1, y, 0);
}

/// The day after `y-m-d`.
pub open spec fn next_date(y: int, m: int, d: int) -> (int, int, int) {
    if d < month_len(y, m) {
        (y, m, d + 1)
    } else if m < 12 {
        (y, m + 1, 1)
    } else {
        (y + 1, 1, 1)
    }
}

proof fn lemma_years_apart(y1: int, y2: int)
    requires
        1970 <= y1 < y2,
    ensures
        days_before_year(y2) >= days_before_year(y1) + year_len(y1),
    decreases y2 - y1,
{
    if y2 > y1 + 1 {
        lemma_years_apart(y1, y2 - 1);
    }
}

proof fn lemma_months_apart(y: int, m1: int, m2: int)
    requires
        1 <= m1 < m2 <= 13,
    ensures
        days_before_month(y, m2) >= days_before_month(y, m1) + month_len(y, m1),
    decreases m2 - m1,
{
    if m2 > m1 + 1 {
        lemma_months_apart(y, m1, m2 - 1);
    }
}

proof fn lemma_epoch_day_in_year(y: int, m: int, d: int)
    requires
        valid_ymd(y, m, d),
    ensures
        days_before_year(y) <= epoch_day(y, m, d) < days_before_year(y) + year_len(y),
        days_before_month(y, m) <= epoch_day(y, m, d) - days_before_year(y) < days_before_month(y, m) + month_len(
            y,
            m,
        ),
{
    lemma_months_fill_year(y);
    if m < 12 {
        lemma_months_apart(y, m, 13);
    } else {
        assert(days_before_month(y, 13) == days_before_month(y, 12) + month_len(y, 12));
    }
    if m > 1 {
        lemma_months_apart(y, 1, m);
    }
}

/// Two real dates with the same day count are the same date.
pub proof fn lemma_epoch_day_injective(y1: int, m1: int, d1: int, y2: int, m2: int, d2: int)
    requires
        valid_ymd(y1, m1, d1),
        valid_ymd(y2, m2, d2),
        epoch_day(y1, m1, d1) == epoch_day(y2, m2, d2),
    ensures
        y1 == y2 && m1 == m2 && d1 == d2,
{
    lemma_epoch_day_in_year(y1, m1, d1);
    lemma_epoch_day_in_year(y2, m2, d2);
    if y1 < y2 {
        lemma_years_apart(y1, y2);
    } else if y2 < y1 {
        lemma_years_apart(y2, y1);
    }
    assert(y1 == y2);
    if m1 < m2 {
        lemma_months_apart(y1, m1, m2);
    } else if m2 < m1 {
        lemma_months_apart(y1, m2, m1);
    }
}

/// Day `n + 1` is the calendar day right after day `n`, so the dates
/// `epoch_days_to_date` writes for consecutive counts follow each other.
pub proof fn lemma_civil_next(n: int)
    requires
        n >= 0,
    ensures
        civil(n + 1) == next_date(civil(n).0, civil(n).1, civil(n).2),
{
    lemma_civil_roundtrip(n);
    lemma_civil_roundtrip(n + 1);
    let (y, m, d) = civil(n);
    let (y2, m2, d2) = next_date(y, m, d);
    assert(valid_ymd(y2, m2, d2));
    if d < month_len(y, m) {
    } else if m < 12 {
        assert(days_before_month(y, m + 1) == days_before_month(y, m) + month_len(y, m));
    } else {
        lemma_months_fill_year(y);
        assert(days_before_month(y, 13) == days_before_month(y, 12) + month_len(y, 12));
        assert(days_before_year(y + 1) == days_before_year(y) + year_len(y));
        assert(days_before_month(y + 1, 1) == 0);
    }
    assert(epoch_day(y2, m2, d2) == n + 1);
    lemma_epoch_day_injective(civil(n + 1).0, civil(n + 1).1, civil(n + 1).2, y2, m2, d2);
}

/// `epoch_days_to_date` writes the date of the day count: for any count up to
/// `i64::MAX`, the text is `civil(n)` as `YYYY-MM-DD`.
pub proof fn lemma_epoch_date_text(n: int)
    requires
        n >= 0,
    ensures
        epoch_date_text(n) == date_text(civil(n).0, civil(n).1, civil(n).2),
{
    lemma_year_split_sum(n, 1970);
    let (y, r1) = year_split(n, 1970);
    lemma_month_split_sum(r1, y, 0);
}


proof fn lemma_parse_padded(v: nat, w: nat, max: nat)
    requires
        v <= max,
    ensures
        parse_digits(dec_pad(v, w), max) == Some(v),
        parse_int(dec_pad(v, w), i64::MIN as int, max as int) == Some(v as int),
        forall|j: int| 0 <= j < dec_pad(v, w).len() ==> dec_pad(v, w)[j] != '-',
{
    lemma_dec_pad_digits(v, w);
    lemma_digits_no_dash(dec_pad(v, w));
    let s = dec_pad(v, w);
    assert(crate::text::is_digit(s[0]));
}

/// Reading back a written date: the text `epoch_days_to_date` writes for a
/// day count parses (with `parse_ymd`, as `day_of_week` and
/// `add_business_days` read dates) to that day's date, for any year that
/// fits in `u32`.
pub proof fn lemma_date_text_parses(n: int)
    requires
        n >= 0,
        civil(n).0 <= u32::MAX,
    ensures
        parse_ymd(epoch_date_text(n)) == Some(civil(n)),
        day_of_week_of(epoch_date_text(n)) == Some(weekday(n)),
{
    lemma_civil_roundtrip(n);
    lemma_epoch_date_text(n);
    let (y, m, d) = civil(n);
    lemma_parse_padded(y as nat, 4, u32::MAX as nat);
    lemma_parse_padded(m as nat, 2, u32::MAX as nat);
    lemma_parse_padded(d as nat, 2, u32::MAX as nat);
    lemma_split_three(dec_pad(y as nat, 4), dec_pad(m as nat, 2), dec_pad(d as nat, 2), '-');
}

proof fn lemma_year1_offset(y: int)
    requires
        y >= 1970,
    ensures
        days_before_year1(y) == days_before_year1(1970) + days_before_year(y),
    decreases y - 1970,
{
    if y > 1970 {
        lemma_year1_offset(y - 1);
    }
}

proof fn lemma_month_total_is_days_before(y: int, m: int)
    requires
        1 <= m <= 13,
    ensures
        month_total(y, m) == days_before_month(y, m),
    decreases m,
{
    if m > 1 {
        lemma_month_total_is_days_before(y, m - 1);
    }
}

/// The day number `calendar_days_between` reads from a written date.
proof fn lemma_text_day_total_of_date(n: int)
    requires
        n >= 0,
        civil(n).0 <= i64::MAX,
    ensures
        text_day_total(epoch_date_text(n)) == Some(days_before_year1(1970) + n + 1),
        dash_numbers(epoch_date_text(n)) == seq![civil(n).0, civil(n).1, civil(n).2],
{
    lemma_civil_roundtrip(n);
    lemma_epoch_date_text(n);
    let (y, m, d) = civil(n);
    lemma_parse_padded(y as nat, 4, i64::MAX as nat);
    lemma_parse_padded(m as nat, 2, i64::MAX as nat);
    lemma_parse_padded(d as nat, 2, i64::MAX as nat);
    let a = dec_pad(y as nat, 4);
    let b = dec_pad(m as nat, 2);
    let c = dec_pad(d as nat, 2);
    lemma_split_three(a, b, c, '-');
    let f = |p: Seq<char>| parse_int(p, i64::MIN as int, i64::MAX as int);
    let ps = seq![a, b, c];
    assert(ps.map_values(f) =~= seq![Some(y), Some(m), Some(d)]);
    let o0 = Seq::<Option<int>>::empty();
    let opts = seq![Some(y), Some(m), Some(d)];
    assert(opts =~= o0.push(Some(y)).push(Some(m)).push(Some(d)));
    lemma_somes_push(o0, Some(y));
    lemma_somes_push(o0.push(Some(y)), Some(m));
    lemma_somes_push(o0.push(Some(y)).push(Some(m)), Some(d));
    assert(somes(o0) =~= Seq::<int>::empty());
    assert(somes(opts) =~= seq![y, m, d]);
    lemma_year1_offset(y);
    lemma_month_total_is_days_before(y, m);
}

/// Days between two written dates: `calendar_days_between` on the texts that
/// `epoch_days_to_date` writes for days `a` and `b` gives `b - a`, and those
/// texts are within its bounds.
pub proof fn lemma_days_between_written(a: int, b: int)
    requires
        0 <= a,
        0 <= b,
        civil(a).0 <= 9999,
        civil(b).0 <= 9999,
    ensures
        text_day_total_fits(epoch_date_text(a)),
        text_day_total_fits(epoch_date_text(b)),
        days_between(epoch_date_text(a), epoch_date_text(b)) == Some(b - a),
{
    lemma_text_day_total_of_date(a);
    lemma_text_day_total_of_date(b);
    lemma_days_before_year1_bound(1970);
    lemma_year_split_sum(a, 1970);
    lemma_year_split_sum(b, 1970);
    lemma_days_before_year_bound(civil(a).0);
    lemma_days_before_year_bound(civil(b).0);
    lemma_civil_roundtrip(a);
    lemma_civil_roundtrip(b);
    lemma_days_before_month_bound(civil(a).0, civil(a).1);
    lemma_days_before_month_bound(civil(b).0, civil(b).1);
}

proof fn lemma_days_before_year1_bound(y: int)
    requires
        y >= 1,
    ensures
        days_before_year1(y) <= 366 * (y - 1),
    decreases y,
{
    if y > 1 {
        lemma_days_before_year1_bound(y - 1);
    }
}

/// The day count of a date text (0 when it is not a date).
pub open spec fn start_day(s: Seq<char>) -> int {
    match parse_ymd(s) {
        Some((y, m, d)) => epoch_day(y, m, d),
        None => 0,
    }
}

/// Business days land on business days: the date `add_business_days` gives
/// for one or more days is a Monday-to-Friday date.
pub proof fn lemma_business_day_weekday(start: Seq<char>, k: nat)
    requires
        k > 0,
        business_days_after(start, k) is Some,
        civil(add_weekdays(start_day(start), k)).0 <= u32::MAX,
    ensures
        day_of_week_of(business_days_after(start, k)->0) matches Some(w) && w < 5,
{
    let (y, m, d) = parse_ymd(start)->0;
    let n0 = epoch_day(y, m, d);
    lemma_days_before_month_bound(y, m);
    lemma_days_before_year_bound(y);
    let n = add_weekdays(n0, k);
    lemma_add_weekdays_bounds(n0, k);
    lemma_date_text_parses(n);
    assert(weekday(next_weekday(add_weekdays(n0, (k - 1) as nat))) < 5);
}

} // verus!
