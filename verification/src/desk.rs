//! The desk's assignment board: listing open assignments by deadline, and
//! the rules for assigning, pitching, completing and commenting on them.
use vstd::prelude::*;
use crate::editorial::{
    desk_assign_args, is_valid_time, opt_view, parse_desk_assign_args, strings_view,
    valid_time, DeskAssignment, DeskStatus,
};
use crate::style::{GREEN, RESET, YELLOW};
use crate::text::{
    chars_of, dec, eq_exec, find, find_exec, lemma_find_from, lemma_lex_antisym,
    lemma_lex_total, lemma_lex_trans, lex_le, lex_le_exec, parse_uint, parse_uint_exec,
    push_all, push_dec, push_str, slice_of, split_once_ws, split_once_ws_exec, split_ws,
    string_of, trim, trim_vec, words,
};

verus! {

pub struct DeskAssignmentV {
    pub reporter: Seq<char>,
    pub content: Seq<char>,
    pub deadline: Option<Seq<char>>,
    pub status: DeskStatus,
    pub feedback: Seq<Seq<char>>,
    pub is_pitch: bool,
    pub created_at: Seq<char>,
}

impl View for DeskAssignment {
    type V = DeskAssignmentV;

    open spec fn view(&self) -> DeskAssignmentV {
        DeskAssignmentV {
            reporter: self.reporter@,
            content: self.content@,
            deadline: opt_view(self.deadline),
            status: self.status,
            feedback: strings_view(self.feedback@),
            is_pitch: self.is_pitch,
            created_at: self.created_at@,
        }
    }
}

pub open spec fn desk_view(v: Seq<DeskAssignment>) -> Seq<DeskAssignmentV> {
    v.map_values(|a: DeskAssignment| a@)
}

/// Why a `/desk` request was refused.
#[derive(Debug, Clone, Copy, PartialEq, Eq, Structural)]
pub enum DeskError {
    /// Required arguments are missing.
    Usage,
    /// The number is not a whole number from 1 up.
    InvalidNumber,
    /// There is no assignment with that number.
    NotFound,
    /// The assignment is already done.
    AlreadyDone,
    /// The feedback text is empty.
    EmptyFeedback,
    /// The pitch has a title but no description.
    EmptyDescription,
    /// The deadline is not a valid `HH:MM`.
    InvalidTime,
}

// ───────────────────────── listing ─────────────────────────

/// The reporter named by `--reporter <name>` in `/desk list` arguments.
pub open spec fn reporter_filter(args: Seq<char>) -> Option<Seq<char>> {
    match find(args, "--reporter"@) {
        Some(p) => {
            let after = trim(args.skip(p + 10));
            if after.len() == 0 {
                None
            } else {
                Some(words(after)[0])
            }
        },
        None => None,
    }
}

proof fn lemma_words_nonempty(s: Seq<char>)
    requires
        s.len() > 0,
        trim(s) == s,
    ensures
        words(s).len() > 0,
{
    crate::text::lemma_words_of_trimmed(s);
}

/// Read the `--reporter` filter of `/desk list`.
pub fn desk_reporter_filter(args: &str) -> (r: Option<String>)
    ensures
        opt_view(r) == reporter_filter(args@),
{
    let a = chars_of(args);
    let pat = chars_of("--reporter");
    proof {
        reveal_strlit("--reporter");
        lemma_find_from(a@, pat@, 0);
    }
    let n = a.len();
    match find_exec(a.as_slice(), pat.as_slice()) {
        Some(p) => {
            let tail = slice_of(a.as_slice(), p + 10, n);
            assert(tail@ =~= a@.skip(p + 10));
            let after = trim_vec(tail.as_slice());
            if after.len() == 0 {
                None
            } else {
                proof {
                    crate::text::lemma_trim_trim(tail@);
                    lemma_words_nonempty(after@);
                }
                let ws = split_ws(after.as_slice());
                assert(ws[0]@ == ws.deep_view()[0]);
                Some(string_of(ws[0].as_slice()))
            }
        },
        None => None,
    }
}

/// Whether an assignment is shown by `/desk list`: pending, and by the
/// filtered reporter if there is a filter.
pub open spec fn desk_listed(a: DeskAssignmentV, filter: Option<Seq<char>>) -> bool {
    a.status == DeskStatus::Pending && (filter matches Some(r) ==> a.reporter == r)
}

/// `a < b` on strings.
pub open spec fn lex_lt(a: Seq<char>, b: Seq<char>) -> bool {
    lex_le(a, b) && a != b
}

/// `a` has an earlier key than `b`: a deadline before no deadline, earlier
/// deadlines first, and without deadlines the earlier creation first.
pub open spec fn desk_key_lt(a: DeskAssignmentV, b: DeskAssignmentV) -> bool {
    match (a.deadline, b.deadline) {
        (Some(x), Some(y)) => lex_lt(x, y),
        (Some(_), None) => true,
        (None, Some(_)) => false,
        (None, None) => lex_lt(a.created_at, b.created_at),
    }
}

/// `a` and `b` have the same key.
pub open spec fn desk_key_eq(a: DeskAssignmentV, b: DeskAssignmentV) -> bool {
    match (a.deadline, b.deadline) {
        (Some(x), Some(y)) => x == y,
        (None, None) => a.created_at == b.created_at,
        _ => false,
    }
}

/// Assignment `i` is listed before assignment `j`: by key, and in stored
/// order for equal keys.
pub open spec fn desk_before(v: Seq<DeskAssignmentV>, i: int, j: int) -> bool {
    desk_key_lt(v[i], v[j]) || (desk_key_eq(v[i], v[j]) && i < j)
}

/// The order `/desk list` shows: the numbers (0-based) of the listed
/// assignments, each once, sorted by deadline.
pub open spec fn desk_order_ok(v: Seq<DeskAssignmentV>, filter: Option<Seq<char>>, r: Seq<usize>) -> bool {
    &&& forall|k: int| 0 <= k < r.len() ==> (#[trigger] r[k]) < v.len() && desk_listed(v[r[k] as int], filter)
    &&& forall|i: int| 0 <= i < v.len() && desk_listed(v[i], filter) ==> r.contains(i as usize)
    &&& forall|k1: int, k2: int| 0 <= k1 < k2 < r.len() ==> desk_before(v, #[trigger] r[k1] as int, #[trigger] r[k2] as int)
}

proof fn lemma_key_total(a: DeskAssignmentV, b: DeskAssignmentV)
    ensures
        desk_key_lt(a, b) || desk_key_lt(b, a) || desk_key_eq(a, b),
{
    match (a.deadline, b.deadline) {
        (Some(x), Some(y)) => {
            lemma_lex_total(x, y);
        },
        (None, None) => {
            lemma_lex_total(a.created_at, b.created_at);
        },
        _ => {},
    }
}

proof fn lemma_before_trans(v: Seq<DeskAssignmentV>, i: int, j: int, k: int)
    requires
        desk_before(v, i, j),
        desk_before(v, j, k),
    ensures
        desk_before(v, i, k),
{
    let (a, b, c) = (v[i], v[j], v[k]);
    match (a.deadline, b.deadline, c.deadline) {
        (Some(x), Some(y), Some(z)) => {
            if lex_le(x, y) && lex_le(y, z) {
                lemma_lex_trans(x, y, z);
            }
            if x == z && x != y {
                lemma_lex_antisym(x, y);
            }
        },
        (None, None, None) => {
            let (x, y, z) = (a.created_at, b.created_at, c.created_at);
            if lex_le(x, y) && lex_le(y, z) {
                lemma_lex_trans(x, y, z);
            }
            if x == z && x != y {
                lemma_lex_antisym(x, y);
            }
        },
        _ => {},
    }
}

fn opt_lex_lt(x: &String, y: &String) -> (r: bool)
    ensures
        r == lex_lt(x@, y@),
{
    let a = chars_of(x.as_str());
    let b = chars_of(y.as_str());
    lex_le_exec(a.as_slice(), b.as_slice()) && !eq_exec(a.as_slice(), b.as_slice())
}

fn desk_key_lt_exec(a: &DeskAssignment, b: &DeskAssignment) -> (r: bool)
    ensures
        r == desk_key_lt(a@, b@),
{
    match (&a.deadline, &b.deadline) {
        (Some(x), Some(y)) => opt_lex_lt(x, y),
        (Some(_), None) => true,
        (None, Some(_)) => false,
        (None, None) => opt_lex_lt(&a.created_at, &b.created_at),
    }
}

fn is_listed(a: &DeskAssignment, filter: &Option<String>) -> (r: bool)
    ensures
        r == desk_listed(a@, opt_view(*filter)),
{
    if a.status != DeskStatus::Pending {
        return false;
    }
    match filter {
        Some(f) => {
            let x = chars_of(a.reporter.as_str());
            let y = chars_of(f.as_str());
            eq_exec(x.as_slice(), y.as_slice())
        },
        None => true,
    }
}

/// The numbers (0-based) of the assignments `/desk list` shows, in the
/// order it shows them: pending ones (of the filtered reporter), those
/// with a deadline first by deadline, then the others by creation time,
/// and in stored order where these tie.
pub fn desk_list_order(assignments: &Vec<DeskAssignment>, filter: &Option<String>) -> (r: Vec<usize>)
    ensures
        desk_order_ok(desk_view(assignments@), opt_view(*filter), r@),
{
    let ghost v = desk_view(assignments@);
    let ghost f = opt_view(*filter);
    let mut out: Vec<usize> = Vec::new();
    let mut i: usize = 0;
    while i < assignments.len()
        invariant
            i <= assignments@.len(),
            v == desk_view(assignments@),
            f == opt_view(*filter),
            forall|k: int| 0 <= k < out@.len() ==> (#[trigger] out@[k]) < i && desk_listed(v[out@[k] as int], f),
            forall|q: int| 0 <= q < i && desk_listed(v[q], f) ==> out@.contains(q as usize),
            forall|k1: int, k2: int| 0 <= k1 < k2 < out@.len() ==> desk_before(v, #[trigger] out@[k1] as int, #[trigger] out@[k2] as int),
        decreases assignments@.len() - i,
    {
        assert(v[i as int] == assignments[i as int]@);
        if is_listed(&assignments[i], filter) {
            let mut p: usize = 0;
            let mut stop = false;
            while p < out.len() && !stop
                invariant
                    p <= out@.len(),
                    i < assignments@.len(),
                    v == desk_view(assignments@),
                    forall|k: int| 0 <= k < out@.len() ==> (#[trigger] out@[k]) < i,
                    forall|k: int| 0 <= k < p ==> desk_before(v, #[trigger] out@[k] as int, i as int),
                    stop ==> p < out@.len() && desk_before(v, i as int, out@[p as int] as int),
                decreases out@.len() - p + if stop { 0int } else { 1int },
            {
                let q = out[p];
                assert(v[q as int] == assignments[q as int]@);
                if desk_key_lt_exec(&assignments[i], &assignments[q]) {
                    stop = true;
                } else {
                    proof {
                        lemma_key_total(v[i as int], v[q as int]);
                    }
                    p += 1;
                }
            }
            let ghost old_out = out@;
            out.insert(p, i);
            assert(out@ =~= old_out.insert(p as int, i));
            assert forall|k1: int, k2: int| 0 <= k1 < k2 < out@.len() implies desk_before(v, #[trigger] out@[k1] as int, #[trigger] out@[k2] as int) by {
                if k2 < p {
                    assert(out@[k1] == old_out[k1] && out@[k2] == old_out[k2]);
                } else if k2 == p {
                    assert(out@[k1] == old_out[k1]);
                } else if k1 == p {
                    assert(out@[k2] == old_out[k2 - 1]);
                    if k2 - 1 > p {
                        assert(desk_before(v, old_out[p as int] as int, old_out[k2 - 1] as int));
                        lemma_before_trans(v, i as int, old_out[p as int] as int, old_out[k2 - 1] as int);
                    }
                } else if k1 < p {
                    assert(out@[k1] == old_out[k1] && out@[k2] == old_out[k2 - 1]);
                } else {
                    assert(out@[k1] == old_out[k1 - 1] && out@[k2] == old_out[k2 - 1]);
                }
            }
            assert forall|q: int| 0 <= q < i + 1 && desk_listed(v[q], f) implies out@.contains(q as usize) by {
                if q < i {
                    let k = choose|k: int| 0 <= k < old_out.len() && old_out[k] == q as usize;
                    if k < p {
                        assert(out@[k] == q as usize);
                    } else {
                        assert(out@[k + 1] == q as usize);
                    }
                } else {
                    assert(out@[p as int] == i);
                }
            }
        }
        i += 1;
    }
    out
}

/// How an assignment is listed: its kind, number, reporter, content,
/// deadline and the count of feedback, in yellow when it has a deadline.
pub open spec fn desk_line_text(num: nat, a: DeskAssignmentV) -> Seq<char> {
    "  "@ + (if a.deadline is Some {
        YELLOW@
    } else {
        GREEN@
    }) + (if a.is_pitch {
        "💡"@
    } else {
        "📝"@
    }) + " #"@ + dec(num) + " ["@ + a.reporter + "] "@ + a.content + (match a.deadline {
        Some(d) => " [마감: "@ + d + "]"@,
        None => seq![],
    }) + (if a.feedback.len() > 0 {
        " ("@ + dec(a.feedback.len()) + "건 피드백)"@
    } else {
        seq![]
    }) + RESET@
}

/// The line `/desk list` prints for assignment number `num`.
pub fn desk_line(num: usize, a: &DeskAssignment) -> (r: String)
    ensures
        r@ == desk_line_text(num as nat, a@),
{
    let mut out = chars_of("  ");
    if a.deadline.is_some() {
        push_str(&mut out, YELLOW);
    } else {
        push_str(&mut out, GREEN);
    }
    if a.is_pitch {
        push_str(&mut out, "💡");
    } else {
        push_str(&mut out, "📝");
    }
    push_str(&mut out, " #");
    push_dec(&mut out, num as u64);
    push_str(&mut out, " [");
    push_str(&mut out, a.reporter.as_str());
    push_str(&mut out, "] ");
    push_str(&mut out, a.content.as_str());
    match &a.deadline {
        Some(d) => {
            push_str(&mut out, " [마감: ");
            push_str(&mut out, d.as_str());
            push_str(&mut out, "]");
        },
        None => {},
    }
    if a.feedback.len() > 0 {
        push_str(&mut out, " (");
        push_dec(&mut out, a.feedback.len() as u64);
        push_str(&mut out, "건 피드백)");
    }
    push_str(&mut out, RESET);
    assert(out@ =~= desk_line_text(num as nat, a@));
    string_of(out.as_slice())
}

// ───────────────────────── changes ─────────────────────────

/// A new pending assignment with no feedback.
pub open spec fn fresh_assignment(
    reporter: Seq<char>,
    content: Seq<char>,
    deadline: Option<Seq<char>>,
    is_pitch: bool,
    now: Seq<char>,
) -> DeskAssignmentV {
    DeskAssignmentV {
        reporter,
        content,
        deadline,
        status: DeskStatus::Pending,
        feedback: seq![],
        is_pitch,
        created_at: now,
    }
}

/// What `/desk assign <args>` creates at time `now`: the usage error for
/// missing reporter or content, the time error for a deadline that is not
/// `HH:MM`, or the new assignment.
pub open spec fn assigned(args: Seq<char>, now: Seq<char>) -> Result<DeskAssignmentV, DeskError> {
    if args.len() == 0 {
        Err(DeskError::Usage)
    } else {
        match desk_assign_args(args) {
            None => Err(DeskError::Usage),
            Some((reporter, content, deadline)) => if deadline matches Some(d) && !valid_time(d) {
                Err(DeskError::InvalidTime)
            } else {
                Ok(fresh_assignment(reporter, content, deadline, false, now))
            },
        }
    }
}

pub open spec fn desk_result_view(r: Result<DeskAssignment, DeskError>) -> Result<DeskAssignmentV, DeskError> {
    match r {
        Ok(a) => Ok(a@),
        Err(e) => Err(e),
    }
}

/// The assignment `/desk assign <args>` adds, created at `now`.
pub fn new_desk_assignment(args: &str, now: &str) -> (r: Result<DeskAssignment, DeskError>)
    ensures
        desk_result_view(r) == assigned(args@, now@),
{
    let av = chars_of(args);
    if av.len() == 0 {
        return Err(DeskError::Usage);
    }
    let (reporter, content, deadline) = match parse_desk_assign_args(args) {
        Some(v) => v,
        None => return Err(DeskError::Usage),
    };
    match &deadline {
        Some(d) => {
            if !is_valid_time(d.as_str()) {
                return Err(DeskError::InvalidTime);
            }
        },
        None => {},
    }
    let a = DeskAssignment {
        reporter,
        content,
        deadline,
        status: DeskStatus::Pending,
        feedback: Vec::new(),
        is_pitch: false,
        created_at: string_of(chars_of(now).as_slice()),
    };
    assert(a@.feedback =~= Seq::<Seq<char>>::empty());
    Ok(a)
}

/// What `/desk pitch <title> <description>` creates at time `now`: a
/// pending pitch from `제안` whose content is `[title] description`.
pub open spec fn pitched(args: Seq<char>, now: Seq<char>) -> Result<DeskAssignmentV, DeskError> {
    if args.len() == 0 {
        Err(DeskError::Usage)
    } else {
        match split_once_ws(args) {
            None => Err(DeskError::Usage),
            Some((t, d)) => if trim(d).len() == 0 {
                Err(DeskError::EmptyDescription)
            } else {
                Ok(
                    fresh_assignment(
                        "제안"@,
                        "["@ + trim(t) + "] "@ + trim(d),
                        None,
                        true,
                        now,
                    ),
                )
            },
        }
    }
}

/// The pitch `/desk pitch <args>` adds, created at `now`.
pub fn new_desk_pitch(args: &str, now: &str) -> (r: Result<DeskAssignment, DeskError>)
    ensures
        desk_result_view(r) == pitched(args@, now@),
{
    let av = chars_of(args);
    if av.len() == 0 {
        return Err(DeskError::Usage);
    }
    let (t, d) = match split_once_ws_exec(av.as_slice()) {
        Some(v) => v,
        None => return Err(DeskError::Usage),
    };
    let title = trim_vec(t.as_slice());
    let desc = trim_vec(d.as_slice());
    if desc.len() == 0 {
        return Err(DeskError::EmptyDescription);
    }
    let mut content = chars_of("[");
    push_all(&mut content, title.as_slice());
    push_str(&mut content, "] ");
    push_all(&mut content, desc.as_slice());
    let a = DeskAssignment {
        reporter: string_of(chars_of("제안").as_slice()),
        content: string_of(content.as_slice()),
        deadline: None,
        status: DeskStatus::Pending,
        feedback: Vec::new(),
        is_pitch: true,
        created_at: string_of(chars_of(now).as_slice()),
    };
    assert(a@.feedback =~= Seq::<Seq<char>>::empty());
    assert(a@.content =~= "["@ + trim(t@) + "] "@ + trim(d@));
    Ok(a)
}

/// A 1-based assignment number: a whole number from 1 up.
pub open spec fn desk_number(s: Seq<char>) -> Option<nat> {
    match parse_uint(s, usize::MAX as nat) {
        Some(n) => if n >= 1 {
            Some(n)
        } else {
            None
        },
        None => None,
    }
}

/// What `/desk done <num>` does to the board `v`: the error, or the board
/// with that assignment done.
pub open spec fn desk_done(v: Seq<DeskAssignmentV>, num: Seq<char>) -> Result<Seq<DeskAssignmentV>, DeskError> {
    if num.len() == 0 {
        Err(DeskError::Usage)
    } else {
        match desk_number(trim(num)) {
            None => Err(DeskError::InvalidNumber),
            Some(n) => if n - 1 >= v.len() {
                Err(DeskError::NotFound)
            } else if v[n - 1].status == DeskStatus::Done {
                Err(DeskError::AlreadyDone)
            } else {
                Ok(v.update(n - 1, DeskAssignmentV { status: DeskStatus::Done, ..v[n - 1] }))
            },
        }
    }
}

/// Completing an assignment is done once: a second `/desk done` with the
/// same number is refused as already done, and only that assignment changed.
pub proof fn lemma_desk_done_twice(v: Seq<DeskAssignmentV>, num: Seq<char>)
    requires
        desk_done(v, num) is Ok,
    ensures
        desk_done(desk_done(v, num)->Ok_0, num) == Err::<Seq<DeskAssignmentV>, DeskError>(
            DeskError::AlreadyDone,
        ),
        desk_done(v, num)->Ok_0.len() == v.len(),
        forall|i: int|
            0 <= i < v.len() && i != desk_number(trim(num))->0 - 1 ==> desk_done(v, num)->Ok_0[i] == v[i],
{
}

/// Mark the assignment numbered `num` done; returns its reporter and content.
pub fn mark_desk_done(assignments: &mut Vec<DeskAssignment>, num: &str) -> (r: Result<(String, String), DeskError>)
    ensures
        match desk_done(desk_view(old(assignments)@), num@) {
            Ok(v) => r matches Ok((rep, content)) && desk_view(final(assignments)@) == v
                && rep@ == v[(desk_number(trim(num@))->0 - 1) as int].reporter
                && content@ == v[(desk_number(trim(num@))->0 - 1) as int].content,
            Err(e) => r == Err::<(String, String), DeskError>(e) && final(assignments)@ == old(assignments)@,
        },
{
    let nv = chars_of(num);
    if nv.len() == 0 {
        return Err(DeskError::Usage);
    }
    let t = trim_vec(nv.as_slice());
    let n = match parse_uint_exec(t.as_slice(), usize::MAX as u64) {
        Some(n) => n,
        None => return Err(DeskError::InvalidNumber),
    };
    if n < 1 {
        return Err(DeskError::InvalidNumber);
    }
    if n - 1 >= assignments.len() as u64 {
        return Err(DeskError::NotFound);
    }
    let k = (n - 1) as usize;
    if assignments[k].status == DeskStatus::Done {
        return Err(DeskError::AlreadyDone);
    }
    let ghost before = desk_view(assignments@);
    let mut a = assignments.remove(k);
    a.status = DeskStatus::Done;
    let rep = string_of(chars_of(a.reporter.as_str()).as_slice());
    let content = string_of(chars_of(a.content.as_str()).as_slice());
    let ghost av = a@;
    assignments.insert(k, a);
    assert(desk_view(assignments@) =~= before.update(k as int, av));
    Ok((rep, content))
}

/// What `/desk feedback <num> <text>` does to the board `v`: the error, or
/// the board with the text added to that assignment's feedback.
pub open spec fn desk_feedback(v: Seq<DeskAssignmentV>, args: Seq<char>) -> Result<Seq<DeskAssignmentV>, DeskError> {
    if args.len() == 0 {
        Err(DeskError::Usage)
    } else {
        match split_once_ws(args) {
            None => Err(DeskError::Usage),
            Some((n, f)) => if trim(f).len() == 0 {
                Err(DeskError::EmptyFeedback)
            } else {
                match desk_number(trim(n)) {
                    None => Err(DeskError::InvalidNumber),
                    Some(k) => if k - 1 >= v.len() {
                        Err(DeskError::NotFound)
                    } else {
                        Ok(
                            v.update(
                                k - 1,
                                DeskAssignmentV { feedback: v[k - 1].feedback.push(trim(f)), ..v[k - 1] },
                            ),
                        )
                    },
                }
            },
        }
    }
}

/// Add feedback to the assignment numbered in `args`; returns its content.
pub fn add_desk_feedback(assignments: &mut Vec<DeskAssignment>, args: &str) -> (r: Result<String, DeskError>)
    ensures
        match desk_feedback(desk_view(old(assignments)@), args@) {
            Ok(v) => r is Ok && desk_view(final(assignments)@) == v,
            Err(e) => r == Err::<String, DeskError>(e) && final(assignments)@ == old(assignments)@,
        },
{
    let av = chars_of(args);
    if av.len() == 0 {
        return Err(DeskError::Usage);
    }
    let (n, f) = match split_once_ws_exec(av.as_slice()) {
        Some(v) => v,
        None => return Err(DeskError::Usage),
    };
    let fb = trim_vec(f.as_slice());
    if fb.len() == 0 {
        return Err(DeskError::EmptyFeedback);
    }
    let nt = trim_vec(n.as_slice());
    let num = match parse_uint_exec(nt.as_slice(), usize::MAX as u64) {
        Some(x) => x,
        None => return Err(DeskError::InvalidNumber),
    };
    if num < 1 {
        return Err(DeskError::InvalidNumber);
    }
    if num - 1 >= assignments.len() as u64 {
        return Err(DeskError::NotFound);
    }
    let k = (num - 1) as usize;
    let ghost before = desk_view(assignments@);
    let mut a = assignments.remove(k);
    let ghost fb_before = a@.feedback;
    a.feedback.push(string_of(fb.as_slice()));
    assert(a@.feedback =~= fb_before.push(fb@));
    let content = string_of(chars_of(a.content.as_str()).as_slice());
    let ghost nav = a@;
    assignments.insert(k, a);
    assert(desk_view(assignments@) =~= before.update(k as int, nav));
    Ok(content)
}

} // verus!
