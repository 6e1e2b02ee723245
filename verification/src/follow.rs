//! `/follow`: follow-up stories to come back to, listed by due date, with
//! reminders for those due within three days.
use vstd::prelude::*;
use crate::editorial::opt_view;
use crate::order::{days_before, days_order, keys_view, order_by_two_keys, sort_by_days, two_key_before, two_key_order};
use crate::style::{BOLD, DIM, GREEN, RED, RESET, YELLOW};
use crate::text::{
    chars_of, dec, dec_signed, parse_uint, parse_uint_exec, push_dec, push_dec_signed, push_str,
    string_of,
};
use crate::tracking::{
    date_epoch_days, date_fits, days_between_dates, days_until, fits_i64, follow_add_args,
    is_valid_date, parse_follow_add_args, valid_date_text, Followup,
};

verus! {

pub struct FollowupV {
    pub topic: Seq<char>,
    pub due: Option<Seq<char>>,
    pub done: bool,
    pub created_at: Seq<char>,
}

impl View for Followup {
    type V = FollowupV;

    open spec fn view(&self) -> FollowupV {
        FollowupV {
            topic: self.topic@,
            due: opt_view(self.due),
            done: self.done,
            created_at: self.created_at@,
        }
    }
}

pub open spec fn follows_view(v: Seq<Followup>) -> Seq<FollowupV> {
    v.map_values(|f: Followup| f@)
}

/// Why a `/follow` request was refused.
#[derive(Debug, Clone, Copy, PartialEq, Eq, Structural)]
pub enum FollowError {
    /// Required arguments are missing.
    Usage,
    /// The follow-up names no topic.
    EmptyTopic,
    /// The `--due` value is not a `YYYY-MM-DD` date.
    InvalidDate,
    /// The number is not a whole number from 1 up.
    InvalidNumber,
    /// There is no follow-up with that number.
    NotFound,
    /// The follow-up is already done.
    AlreadyDone,
}

/// What `/follow add <args>` records at time `now`.
pub open spec fn follow_added(args: Seq<char>, now: Seq<char>) -> Result<FollowupV, FollowError> {
    if args.len() == 0 {
        Err(FollowError::Usage)
    } else {
        let (topic, due) = follow_add_args(args);
        if topic.len() == 0 {
            Err(FollowError::EmptyTopic)
        } else if due matches Some(d) && !valid_date_text(d) {
            Err(FollowError::InvalidDate)
        } else {
            Ok(FollowupV { topic, due, done: false, created_at: now })
        }
    }
}

/// The follow-up `/follow add <args>` records at time `now`.
pub fn new_followup(args: &str, now: &str) -> (r: Result<Followup, FollowError>)
    ensures
        match follow_added(args@, now@) {
            Ok(f) => r matches Ok(x) && x@ == f,
            Err(e) => r matches Err(x) && x == e,
        },
{
    if chars_of(args).len() == 0 {
        return Err(FollowError::Usage);
    }
    let (topic, due) = parse_follow_add_args(args);
    if chars_of(topic.as_str()).len() == 0 {
        return Err(FollowError::EmptyTopic);
    }
    match &due {
        Some(d) => {
            if !is_valid_date(d.as_str()) {
                return Err(FollowError::InvalidDate);
            }
        },
        None => {},
    }
    Ok(Followup { topic, due, done: false, created_at: string_of(chars_of(now).as_slice()) })
}

/// A 1-based follow-up number as `str::parse::<usize>` reads it, from 1 up.
pub open spec fn follow_number(s: Seq<char>) -> Option<nat> {
    match parse_uint(s, usize::MAX as nat) {
        Some(n) => if n >= 1 {
            Some(n)
        } else {
            None
        },
        None => None,
    }
}

/// What `/follow done <num>` does to the follow-ups `v`.
pub open spec fn follow_done(v: Seq<FollowupV>, num: Seq<char>) -> Result<Seq<FollowupV>, FollowError> {
    if num.len() == 0 {
        Err(FollowError::Usage)
    } else {
        match follow_number(num) {
            None => Err(FollowError::InvalidNumber),
            Some(n) => if n - 1 >= v.len() {
                Err(FollowError::NotFound)
            } else if v[n - 1].done {
                Err(FollowError::AlreadyDone)
            } else {
                Ok(v.update(n - 1, FollowupV { done: true, ..v[n - 1] }))
            },
        }
    }
}

/// Completing a follow-up is done once: a second `/follow done` with the
/// same number is refused as already done, and only that follow-up changed.
pub proof fn lemma_follow_done_twice(v: Seq<FollowupV>, num: Seq<char>)
    requires
        follow_done(v, num) is Ok,
    ensures
        follow_done(follow_done(v, num)->Ok_0, num) == Err::<Seq<FollowupV>, FollowError>(
            FollowError::AlreadyDone,
        ),
        follow_done(v, num)->Ok_0.len() == v.len(),
        forall|i: int|
            0 <= i < v.len() && i != follow_number(num)->0 - 1 ==> follow_done(v, num)->Ok_0[i] == v[i],
{
}

/// Mark the follow-up numbered `num` done; returns its topic.
pub fn mark_followup_done(followups: &mut Vec<Followup>, num: &str) -> (r: Result<String, FollowError>)
    ensures
        match follow_done(follows_view(old(followups)@), num@) {
            Ok(v) => r matches Ok(topic) && follows_view(final(followups)@) == v && topic@ == v[follow_number(
                num@,
            )->0 - 1].topic,
            Err(e) => r == Err::<String, FollowError>(e) && final(followups)@ == old(followups)@,
        },
{
    let nv = chars_of(num);
    if nv.len() == 0 {
        return Err(FollowError::Usage);
    }
    let n = match parse_uint_exec(nv.as_slice(), usize::MAX as u64) {
        Some(n) => n,
        None => return Err(FollowError::InvalidNumber),
    };
    if n < 1 {
        return Err(FollowError::InvalidNumber);
    }
    if n - 1 >= followups.len() as u64 {
        return Err(FollowError::NotFound);
    }
    let k = (n - 1) as usize;
    if followups[k].done {
        return Err(FollowError::AlreadyDone);
    }
    let ghost before = follows_view(followups@);
    let mut f = followups.remove(k);
    f.done = true;
    let topic = string_of(chars_of(f.topic.as_str()).as_slice());
    let ghost fv = f@;
    followups.insert(k, f);
    assert(follows_view(followups@) =~= before.update(k as int, fv));
    Ok(topic)
}

/// How `/follow list` ranks a follow-up: those with a due date (`0`) before
/// those without (`1`).
pub open spec fn follow_rank(f: FollowupV) -> Seq<char> {
    if f.due is Some {
        "0"@
    } else {
        "1"@
    }
}

/// What `/follow list` orders by within a rank: the due date, or the
/// creation time when there is none.
pub open spec fn follow_key(f: FollowupV) -> Seq<char> {
    match f.due {
        Some(d) => d,
        None => f.created_at,
    }
}

pub open spec fn follow_ranks(v: Seq<FollowupV>) -> Seq<Seq<char>> {
    v.map_values(|f: FollowupV| follow_rank(f))
}

pub open spec fn follow_keys(v: Seq<FollowupV>) -> Seq<Seq<char>> {
    v.map_values(|f: FollowupV| follow_key(f))
}

/// `r` lists every open follow-up of `v` (by index) in `/follow list`
/// order: due dates first, ascending; then the undated by creation time;
/// ties in stored order.
pub open spec fn follow_list_ok(v: Seq<FollowupV>, r: Seq<usize>) -> bool {
    &&& forall|k: int| 0 <= k < r.len() ==> (#[trigger] r[k]) < v.len() && !v[r[k] as int].done
    &&& forall|i: usize| i < v.len() && !v[i as int].done ==> #[trigger] r.contains(i)
    &&& forall|k1: int, k2: int|
        0 <= k1 < k2 < r.len() ==> two_key_before(
            follow_ranks(v),
            follow_keys(v),
            #[trigger] r[k1] as int,
            #[trigger] r[k2] as int,
        )
}

/// The open follow-ups in `/follow list` order.
pub fn follow_list_order(followups: &Vec<Followup>) -> (r: Vec<usize>)
    ensures
        follow_list_ok(follows_view(followups@), r@),
{
    let ghost v = follows_view(followups@);
    let mut act: Vec<usize> = Vec::new();
    let mut ranks: Vec<String> = Vec::new();
    let mut keys: Vec<String> = Vec::new();
    let mut i: usize = 0;
    while i < followups.len()
        invariant
            i <= v.len(),
            v == follows_view(followups@),
            act@.len() == ranks@.len(),
            act@.len() == keys@.len(),
            forall|k: int| 0 <= k < act@.len() ==> (#[trigger] act@[k]) < i && !v[act@[k] as int].done,
            forall|k1: int, k2: int| 0 <= k1 < k2 < act@.len() ==> (#[trigger] act@[k1]) < (#[trigger] act@[k2]),
            forall|j: usize| j < i && !v[j as int].done ==> #[trigger] act@.contains(j),
            forall|k: int| 0 <= k < act@.len() ==> (#[trigger] ranks@[k])@ == follow_rank(v[act@[k] as int]),
            forall|k: int| 0 <= k < act@.len() ==> (#[trigger] keys@[k])@ == follow_key(v[act@[k] as int]),
        decreases v.len() - i,
    {
        let f = &followups[i];
        assert(f@ == v[i as int]);
        if !f.done {
            let ghost old_act = act@;
            act.push(i);
            match &f.due {
                Some(d) => {
                    ranks.push(string_of(chars_of("0").as_slice()));
                    keys.push(string_of(chars_of(d.as_str()).as_slice()));
                },
                None => {
                    ranks.push(string_of(chars_of("1").as_slice()));
                    keys.push(string_of(chars_of(f.created_at.as_str()).as_slice()));
                },
            }
            assert forall|j: usize| j < i + 1 && !v[j as int].done implies #[trigger] act@.contains(j) by {
                if j < i {
                    assert(old_act.contains(j));
                    let w = choose|w: int| 0 <= w < old_act.len() && old_act[w] == j;
                    assert(act@[w] == j);
                } else {
                    assert(act@[act@.len() - 1] == j);
                }
            }
        }
        i += 1;
    }
    let q = order_by_two_keys(&ranks, &keys);
    let ghost pv = keys_view(ranks@);
    let ghost sv = keys_view(keys@);
    let mut out: Vec<usize> = Vec::new();
    let mut m: usize = 0;
    while m < q.len()
        invariant
            m <= q@.len(),
            q@.len() == act@.len(),
            two_key_order(pv, sv, q@),
            out@.len() == m,
            forall|j: int| 0 <= j < m ==> out@[j] == act@[#[trigger] q@[j] as int],
        decreases q@.len() - m,
    {
        let y = q[m];
        out.push(act[y]);
        m += 1;
    }
    assert forall|j: int| 0 <= j < pv.len() implies pv[j] == follow_ranks(v)[#[trigger] act@[j] as int] by {
        assert(pv[j] == ranks@[j]@);
    }
    assert forall|j: int| 0 <= j < sv.len() implies sv[j] == follow_keys(v)[#[trigger] act@[j] as int] by {
        assert(sv[j] == keys@[j]@);
    }
    assert forall|k1: int, k2: int| 0 <= k1 < k2 < out@.len() implies two_key_before(
        follow_ranks(v),
        follow_keys(v),
        #[trigger] out@[k1] as int,
        #[trigger] out@[k2] as int,
    ) by {
        let q1 = q@[k1] as int;
        let q2 = q@[k2] as int;
        assert(two_key_before(pv, sv, q1, q2));
        assert(pv[q1] == follow_ranks(v)[act@[q1] as int]);
        assert(pv[q2] == follow_ranks(v)[act@[q2] as int]);
        assert(sv[q1] == follow_keys(v)[act@[q1] as int]);
        assert(sv[q2] == follow_keys(v)[act@[q2] as int]);
        if q1 < q2 {
            assert(act@[q1] < act@[q2]);
        }
    }
    assert forall|k: int| 0 <= k < out@.len() implies (#[trigger] out@[k]) < v.len() && !v[out@[k] as int].done by {
        assert(out@[k] == act@[q@[k] as int]);
    }
    assert forall|j: usize| j < v.len() && !v[j as int].done implies #[trigger] out@.contains(j) by {
        assert(act@.contains(j));
        let w = choose|w: int| 0 <= w < act@.len() && act@[w] == j;
        assert(q@.contains(w as usize));
        let k = choose|k: int| 0 <= k < q@.len() && q@[k] == w as usize;
        assert(out@[k] == j);
    }
    out
}

/// Reading a follow-up's due date against `today` stays within `i64`.
pub open spec fn due_fits(f: FollowupV, today: Seq<char>) -> bool {
    match f.due {
        Some(d) => date_fits(d) && (date_epoch_days(d) is Some ==> date_fits(today)) && (date_epoch_days(
            d,
        ) matches Some(t) ==> (date_epoch_days(today) matches Some(n) ==> fits_i64(t - n))),
        None => true,
    }
}

/// The days left until a follow-up's due date, when it has one that reads
/// as a date (and `today` does too).
pub open spec fn days_left(f: FollowupV, today: Seq<char>) -> Option<int> {
    match f.due {
        Some(d) => days_between_dates(d, today),
        None => None,
    }
}

fn days_left_exec(f: &Followup, today: &str) -> (r: Option<i64>)
    requires
        due_fits(f@, today@),
    ensures
        match r {
            Some(v) => days_left(f@, today@) == Some(v as int),
            None => days_left(f@, today@) is None,
        },
{
    match &f.due {
        Some(d) => days_until(d.as_str(), today),
        None => None,
    }
}

/// The line `/follow list` prints for follow-up number `num` on `today`.
pub open spec fn follow_line_text(num: nat, f: FollowupV, today: Seq<char>) -> Seq<char> {
    let due_text = match f.due {
        Some(d) => " [마감: "@ + d + "]"@,
        None => seq![],
    };
    match days_left(f, today) {
        Some(n) => if n < 0 {
            "  "@ + RED@ + "🔴 #"@ + dec(num) + " "@ + f.topic + due_text + " (기한 초과)"@ + RESET@
        } else if n <= 3 {
            "  "@ + YELLOW@ + "🟡 #"@ + dec(num) + " "@ + f.topic + due_text + " ("@ + dec(n as nat)
                + "일 남음)"@ + RESET@
        } else {
            "  "@ + GREEN@ + "🟢 #"@ + dec(num) + " "@ + f.topic + due_text + RESET@
        },
        None => "  "@ + GREEN@ + "🟢 #"@ + dec(num) + " "@ + f.topic + due_text + RESET@,
    }
}

/// The line `/follow list` prints for follow-up number `num` on `today`:
/// red when overdue, yellow within three days, green otherwise.
pub fn follow_line(num: usize, f: &Followup, today: &str) -> (r: String)
    requires
        due_fits(f@, today@),
    ensures
        r@ == follow_line_text(num as nat, f@, today@),
{
    let left = days_left_exec(f, today);
    let mut out = chars_of("  ");
    let (color, mark, late, soon) = match left {
        Some(n) => if n < 0 {
            (RED, "🔴 #", true, false)
        } else if n <= 3 {
            (YELLOW, "🟡 #", false, true)
        } else {
            (GREEN, "🟢 #", false, false)
        },
        None => (GREEN, "🟢 #", false, false),
    };
    push_str(&mut out, color);
    push_str(&mut out, mark);
    push_dec(&mut out, num as u64);
    push_str(&mut out, " ");
    push_str(&mut out, f.topic.as_str());
    match &f.due {
        Some(d) => {
            push_str(&mut out, " [마감: ");
            push_str(&mut out, d.as_str());
            push_str(&mut out, "]");
        },
        None => {},
    }
    if late {
        push_str(&mut out, " (기한 초과)");
    } else if soon {
        push_str(&mut out, " (");
        match left {
            Some(n) => push_dec(&mut out, n as u64),
            None => {},
        }
        push_str(&mut out, "일 남음)");
    }
    push_str(&mut out, RESET);
    assert(out@ =~= follow_line_text(num as nat, f@, today@));
    string_of(out.as_slice())
}

/// The open follow-ups among the first `n` due within three days (or
/// overdue), each as its index and the days left, in index order.
pub open spec fn urgent_entries(v: Seq<FollowupV>, today: Seq<char>, n: int) -> Seq<(usize, i64)>
    decreases n,
{
    if n <= 0 {
        seq![]
    } else {
        let f = v[n - 1];
        let rest = urgent_entries(v, today, n - 1);
        if f.done {
            rest
        } else {
            match days_left(f, today) {
                Some(d) => if d <= 3 {
                    rest.push(((n - 1) as usize, d as i64))
                } else {
                    rest
                },
                None => rest,
            }
        }
    }
}

proof fn lemma_urgent_indices(v: Seq<FollowupV>, today: Seq<char>, n: int)
    requires
        0 <= n <= v.len(),
        v.len() <= usize::MAX,
    ensures
        forall|k: int| 0 <= k < urgent_entries(v, today, n).len() ==> (#[trigger] urgent_entries(v, today, n)[k]).0 < n,
        forall|k1: int, k2: int|
            0 <= k1 < k2 < urgent_entries(v, today, n).len() ==> (#[trigger] urgent_entries(v, today, n)[k1]).0
                < (#[trigger] urgent_entries(v, today, n)[k2]).0,
    decreases n,
{
    if n > 0 {
        lemma_urgent_indices(v, today, n - 1);
        let rest = urgent_entries(v, today, n - 1);
        let cur = urgent_entries(v, today, n);
        let f = v[n - 1];
        if !f.done && days_left(f, today) is Some && days_left(f, today)->0 <= 3 {
            let x = ((n - 1) as usize, days_left(f, today)->0 as i64);
            assert(cur == rest.push(x));
            assert(x.0 == n - 1);
            assert forall|k: int| 0 <= k < cur.len() implies (#[trigger] cur[k]).0 < n by {
                if k < rest.len() {
                    assert(cur[k] == rest[k]);
                }
            }
            assert forall|k1: int, k2: int| 0 <= k1 < k2 < cur.len() implies (#[trigger] cur[k1]).0 < (
            #[trigger] cur[k2]).0 by {
                assert(cur[k1] == rest[k1]);
                if k2 < rest.len() {
                    assert(cur[k2] == rest[k2]);
                } else {
                    assert(cur[k2] == x);
                    assert(rest[k1].0 < n - 1);
                }
            }
        } else {
            assert(cur == rest);
        }
    }
}

/// Every open follow-up's due date can be read against `today`.
pub open spec fn open_dues_fit(v: Seq<FollowupV>, today: Seq<char>) -> bool {
    forall|i: int| 0 <= i < v.len() && !(#[trigger] v[i]).done ==> due_fits(v[i], today)
}

/// What `/follow remind` lists: the open follow-ups due within three days
/// or overdue, soonest first (ties in stored order), each with its days left.
pub fn follow_reminders(followups: &Vec<Followup>, today: &str) -> (r: Vec<(usize, i64)>)
    requires
        open_dues_fit(follows_view(followups@), today@),
    ensures
        days_order(urgent_entries(follows_view(followups@), today@, followups@.len() as int), r@),
{
    let ghost v = follows_view(followups@);
    let mut urgent: Vec<(usize, i64)> = Vec::new();
    let mut i: usize = 0;
    while i < followups.len()
        invariant
            i <= v.len(),
            v == follows_view(followups@),
            open_dues_fit(v, today@),
            urgent@ == urgent_entries(v, today@, i as int),
        decreases v.len() - i,
    {
        let f = &followups[i];
        assert(f@ == v[i as int]);
        if !f.done {
            match days_left_exec(f, today) {
                Some(d) => {
                    if d <= 3 {
                        urgent.push((i, d));
                    }
                },
                None => {},
            }
        }
        i += 1;
    }
    proof {
        assert(v.len() == followups@.len());
        lemma_urgent_indices(v, today@, v.len() as int);
    }
    sort_by_days(&urgent)
}

/// The line `/follow remind` prints for follow-up number `num` due in `days`.
pub open spec fn remind_line_text(num: nat, f: FollowupV, days: int) -> Seq<char> {
    let due = match f.due {
        Some(d) => d,
        None => seq![],
    };
    if days < 0 {
        "  "@ + RED@ + "🔴 #"@ + dec(num) + " "@ + f.topic + " [마감: "@ + due + "] — 기한 초과!"@ + RESET@
    } else if days == 0 {
        "  "@ + RED@ + "🔴 #"@ + dec(num) + " "@ + f.topic + " [마감: "@ + due + "] — 오늘 마감!"@ + RESET@
    } else {
        "  "@ + YELLOW@ + "🟡 #"@ + dec(num) + " "@ + f.topic + " [마감: "@ + due + "] — "@ + dec_signed(
            days,
        ) + "일 남음"@ + RESET@
    }
}

/// The line `/follow remind` prints for follow-up number `num` due in `days`.
pub fn remind_line(num: usize, f: &Followup, days: i64) -> (r: String)
    ensures
        r@ == remind_line_text(num as nat, f@, days as int),
{
    let mut out = chars_of("  ");
    if days <= 0 {
        push_str(&mut out, RED);
        push_str(&mut out, "🔴 #");
    } else {
        push_str(&mut out, YELLOW);
        push_str(&mut out, "🟡 #");
    }
    push_dec(&mut out, num as u64);
    push_str(&mut out, " ");
    push_str(&mut out, f.topic.as_str());
    push_str(&mut out, " [마감: ");
    match &f.due {
        Some(d) => push_str(&mut out, d.as_str()),
        None => {},
    }
    if days < 0 {
        push_str(&mut out, "] — 기한 초과!");
    } else if days == 0 {
        push_str(&mut out, "] — 오늘 마감!");
    } else {
        push_str(&mut out, "] — ");
        push_dec_signed(&mut out, days);
        push_str(&mut out, "일 남음");
    }
    push_str(&mut out, RESET);
    assert(out@ =~= remind_line_text(num as nat, f@, days as int));
    string_of(out.as_slice())
}

} // verus!
