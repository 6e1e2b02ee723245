//! FOIA (정보공개청구) request rules: statuses, deadlines, overdue checks.
use vstd::prelude::*;
use crate::calendar::{
    add_business_days, add_weekdays, civil, epoch_date_text, lemma_add_weekdays_bounds,
    lemma_civil_roundtrip, lemma_date_text_parses, lemma_days_between_written, business_days_after, calendar_days_between, days_between, text_day_total,
    text_day_total_fits,
};
use crate::style::{BOLD, GREEN, RED, RESET, YELLOW};
use crate::text::{
    chars_of, dec, dec_signed, eq_str, parse_uint, parse_uint_exec, push_dec, push_dec_signed,
    push_str, split_once_ws, split_once_ws_exec, string_of, trim, trim_vec,
};

verus! {

/// Where FOIA requests are kept.
pub const FOIA_FILE: &'static str = ".journalist/foia/requests.json";

/// The file holding the FOIA requests.
pub fn foia_path() -> (r: String)
    ensures
        r@ == FOIA_FILE@,
{
    string_of(chars_of(FOIA_FILE).as_slice())
}

/// Subcommand names for `/foia <Tab>` completion.
pub const FOIA_SUBCOMMANDS: [&'static str; 5] = ["file", "list", "status", "update", "remind"];

/// Valid FOIA request statuses.
pub const FOIA_STATUSES: [&'static str; 6] = ["접수", "처리중", "연장", "응답완료", "이의신청", "거부"];

/// A single FOIA (정보공개청구) request.
#[derive(Debug, Clone)]
pub struct FoiaRequest {
    /// 1-based sequential ID
    pub id: u32,
    /// Target government agency / institution
    pub agency: String,
    /// Description of the information requested
    pub content: String,
    /// Current status
    pub status: String,
    /// Date the request was filed (YYYY-MM-DD)
    pub filed_date: String,
    /// Deadline date (10 business days from filing, YYYY-MM-DD)
    pub deadline_date: String,
}

/// A FOIA request as plain values.
pub struct FoiaRequestV {
    pub id: u32,
    pub agency: Seq<char>,
    pub content: Seq<char>,
    pub status: Seq<char>,
    pub filed_date: Seq<char>,
    pub deadline_date: Seq<char>,
}

impl View for FoiaRequest {
    type V = FoiaRequestV;

    open spec fn view(&self) -> FoiaRequestV {
        FoiaRequestV {
            id: self.id,
            agency: self.agency@,
            content: self.content@,
            status: self.status@,
            filed_date: self.filed_date@,
            deadline_date: self.deadline_date@,
        }
    }
}

pub open spec fn foia_view(v: Seq<FoiaRequest>) -> Seq<FoiaRequestV> {
    v.map_values(|r: FoiaRequest| r@)
}

/// Why a `/foia` request was refused.
#[derive(Debug, Clone, Copy, PartialEq, Eq, Structural)]
pub enum FoiaError {
    /// No arguments were given.
    Usage,
    /// Only one of the two required parts (agency and content, or number
    /// and status) was given.
    MissingParts,
    /// The request content is empty.
    EmptyContent,
    /// The number is not a whole number that fits in `u32`.
    InvalidNumber,
    /// The status is not one of `FOIA_STATUSES`.
    InvalidStatus,
    /// No request has that number.
    NotFound,
}

/// A request whose status is final: answered or refused.
pub open spec fn foia_done(status: Seq<char>) -> bool {
    status == "응답완료"@ || status == "거부"@
}

/// What `is_foia_overdue(req, today)` answers: an open request whose
/// deadline is before `today`.
pub open spec fn foia_overdue(status: Seq<char>, deadline: Seq<char>, today: Seq<char>) -> bool {
    !foia_done(status) && match days_between(today, deadline) {
        Some(d) => d < 0,
        None => false,
    }
}

/// Whether the request is finished (answered or refused).
pub fn is_foia_done(status: &str) -> (r: bool)
    ensures
        r == foia_done(status@),
{
    let v = chars_of(status);
    eq_str(v.as_slice(), "응답완료") || eq_str(v.as_slice(), "거부")
}

/// Check if a FOIA request is overdue given today's date.
pub fn is_foia_overdue(req: &FoiaRequest, today: &str) -> (r: bool)
    requires
        !foia_done(req.status@) ==> (text_day_total_fits(req.deadline_date@) && (text_day_total(
            req.deadline_date@,
        ) is Some ==> text_day_total_fits(today@))),
    ensures
        r == foia_overdue(req.status@, req.deadline_date@, today@),
{
    if is_foia_done(req.status.as_str()) {
        return false;
    }
    match calendar_days_between(today, req.deadline_date.as_str()) {
        Some(d) => d < 0,
        None => false,
    }
}

/// One of the six statuses of `FOIA_STATUSES`.
pub open spec fn foia_status_valid(s: Seq<char>) -> bool {
    s == "접수"@ || s == "처리중"@ || s == "연장"@ || s == "응답완료"@ || s == "이의신청"@ || s == "거부"@
}

/// Whether `status` is one of `FOIA_STATUSES`.
pub fn is_foia_status(status: &str) -> (r: bool)
    ensures
        r == foia_status_valid(status@),
{
    let v = chars_of(status);
    eq_str(v.as_slice(), "접수") || eq_str(v.as_slice(), "처리중") || eq_str(v.as_slice(), "연장")
        || eq_str(v.as_slice(), "응답완료") || eq_str(v.as_slice(), "이의신청") || eq_str(
        v.as_slice(),
        "거부",
    )
}

/// The largest id among the requests, or 0 when there are none.
pub open spec fn max_id(v: Seq<FoiaRequestV>) -> nat
    decreases v.len(),
{
    if v.len() == 0 {
        0
    } else {
        let m = max_id(v.drop_last());
        if v.last().id > m {
            v.last().id as nat
        } else {
            m
        }
    }
}

/// The deadline text of a request filed on `today`: ten business days later,
/// or `계산실패` when `today` is not a date.
pub open spec fn foia_deadline(today: Seq<char>) -> Seq<char> {
    match business_days_after(today, 10) {
        Some(d) => d,
        None => "계산실패"@,
    }
}

/// What `/foia file <args>` adds to the requests `v` on `today`.
pub open spec fn foia_filed(v: Seq<FoiaRequestV>, args: Seq<char>, today: Seq<char>) -> Result<FoiaRequestV, FoiaError> {
    if args.len() == 0 {
        Err(FoiaError::Usage)
    } else {
        match split_once_ws(args) {
            None => Err(FoiaError::MissingParts),
            Some((a, c)) => if trim(c).len() == 0 {
                Err(FoiaError::EmptyContent)
            } else {
                Ok(
                    FoiaRequestV {
                        id: (max_id(v) + 1) as u32,
                        agency: trim(a),
                        content: trim(c),
                        status: "접수"@,
                        filed_date: today,
                        deadline_date: foia_deadline(today),
                    },
                )
            },
        }
    }
}

pub open spec fn foia_result_view(r: Result<FoiaRequest, FoiaError>) -> Result<FoiaRequestV, FoiaError> {
    match r {
        Ok(x) => Ok(x@),
        Err(e) => Err(e),
    }
}

fn max_foia_id(requests: &Vec<FoiaRequest>) -> (r: u32)
    ensures
        r == max_id(foia_view(requests@)),
{
    let ghost v = foia_view(requests@);
    let mut m: u32 = 0;
    let mut i: usize = 0;
    while i < requests.len()
        invariant
            i <= requests@.len(),
            v == foia_view(requests@),
            m == max_id(v.take(i as int)),
        decreases requests@.len() - i,
    {
        assert(v.take(i + 1).drop_last() =~= v.take(i as int));
        if requests[i].id > m {
            m = requests[i].id;
        }
        i += 1;
    }
    assert(v.take(requests@.len() as int) =~= v);
    m
}

/// The request `/foia file <args>` adds on `today`, numbered one past the
/// largest number in use.
pub fn new_foia_request(requests: &Vec<FoiaRequest>, args: &str, today: &str) -> (r: Result<FoiaRequest, FoiaError>)
    requires
        max_id(foia_view(requests@)) < u32::MAX,
    ensures
        foia_result_view(r) == foia_filed(foia_view(requests@), args@, today@),
{
    let av = chars_of(args);
    if av.len() == 0 {
        return Err(FoiaError::Usage);
    }
    let (a, c) = match split_once_ws_exec(av.as_slice()) {
        Some(p) => p,
        None => return Err(FoiaError::MissingParts),
    };
    let content = trim_vec(c.as_slice());
    if content.len() == 0 {
        return Err(FoiaError::EmptyContent);
    }
    let agency = trim_vec(a.as_slice());
    let next_id = max_foia_id(requests) + 1;
    let deadline = match add_business_days(today, 10) {
        Some(d) => d,
        None => string_of(chars_of("계산실패").as_slice()),
    };
    proof {
        reveal_strlit("계산실패");
    }
    Ok(
        FoiaRequest {
            id: next_id,
            agency: string_of(agency.as_slice()),
            content: string_of(content.as_slice()),
            status: string_of(chars_of("접수").as_slice()),
            filed_date: string_of(chars_of(today).as_slice()),
            deadline_date: deadline,
        },
    )
}

/// The index of the first request numbered `id`, searching from `i`.
pub open spec fn first_with_id(v: Seq<FoiaRequestV>, id: nat, i: int) -> Option<int>
    decreases v.len() - i,
{
    if i < 0 || i >= v.len() {
        None
    } else if v[i].id == id {
        Some(i)
    } else {
        first_with_id(v, id, i + 1)
    }
}

proof fn lemma_first_with_id(v: Seq<FoiaRequestV>, id: nat, i: int)
    requires
        0 <= i,
    ensures
        first_with_id(v, id, i) matches Some(k) ==> i <= k < v.len() && v[k].id == id,
    decreases v.len() - i,
{
    if i < v.len() && v[i].id != id {
        lemma_first_with_id(v, id, i + 1);
    }
}

/// Where the request numbered `id` stands, if any.
pub fn find_foia(requests: &Vec<FoiaRequest>, id: u32) -> (r: Option<usize>)
    ensures
        match r {
            Some(k) => first_with_id(foia_view(requests@), id as nat, 0) == Some(k as int),
            None => first_with_id(foia_view(requests@), id as nat, 0) is None,
        },
{
    let ghost v = foia_view(requests@);
    let mut i: usize = 0;
    while i < requests.len()
        invariant
            i <= requests@.len(),
            v == foia_view(requests@),
            first_with_id(v, id as nat, 0) == first_with_id(v, id as nat, i as int),
        decreases requests@.len() - i,
    {
        if requests[i].id == id {
            return Some(i);
        }
        i += 1;
    }
    None
}

/// The request number of `/foia status <num>`.
pub open spec fn foia_status_number(num: Seq<char>) -> Result<nat, FoiaError> {
    if num.len() == 0 {
        Err(FoiaError::Usage)
    } else {
        match parse_uint(trim(num), u32::MAX as nat) {
            Some(n) => Ok(n),
            None => Err(FoiaError::InvalidNumber),
        }
    }
}

/// Read the request number of `/foia status <num>`.
pub fn parse_foia_status_number(num: &str) -> (r: Result<u32, FoiaError>)
    ensures
        match r {
            Ok(n) => foia_status_number(num@) == Ok::<nat, FoiaError>(n as nat),
            Err(e) => foia_status_number(num@) == Err::<nat, FoiaError>(e),
        },
{
    let v = chars_of(num);
    if v.len() == 0 {
        return Err(FoiaError::Usage);
    }
    let t = trim_vec(v.as_slice());
    match parse_uint_exec(t.as_slice(), u32::MAX as u64) {
        Some(n) => Ok(n as u32),
        None => Err(FoiaError::InvalidNumber),
    }
}

/// A request after `/foia update` sets its status to `st`: an extension
/// (`연장`) also moves the deadline ten business days on, when the deadline
/// is a date.
pub open spec fn with_status(r: FoiaRequestV, st: Seq<char>) -> FoiaRequestV {
    FoiaRequestV {
        status: st,
        deadline_date: if st == "연장"@ {
            match business_days_after(r.deadline_date, 10) {
                Some(d) => d,
                None => r.deadline_date,
            }
        } else {
            r.deadline_date
        },
        ..r
    }
}

/// What `/foia update <num> <status>` does to the requests `v`.
pub open spec fn foia_updated(v: Seq<FoiaRequestV>, args: Seq<char>) -> Result<Seq<FoiaRequestV>, FoiaError> {
    if args.len() == 0 {
        Err(FoiaError::Usage)
    } else {
        match split_once_ws(args) {
            None => Err(FoiaError::MissingParts),
            Some((n, s)) => match parse_uint(trim(n), u32::MAX as nat) {
                None => Err(FoiaError::InvalidNumber),
                Some(id) => if !foia_status_valid(trim(s)) {
                    Err(FoiaError::InvalidStatus)
                } else {
                    match first_with_id(v, id, 0) {
                        None => Err(FoiaError::NotFound),
                        Some(k) => Ok(v.update(k, with_status(v[k], trim(s)))),
                    }
                },
            },
        }
    }
}

/// The index of the request that `/foia update <args>` changes.
pub open spec fn foia_update_index(v: Seq<FoiaRequestV>, args: Seq<char>) -> int {
    let (n, s) = split_once_ws(args)->Some_0;
    first_with_id(v, parse_uint(trim(n), u32::MAX as nat)->Some_0, 0)->Some_0
}

/// Apply `/foia update <num> <status>`; returns the status it replaced.
pub fn update_foia(requests: &mut Vec<FoiaRequest>, args: &str) -> (r: Result<String, FoiaError>)
    ensures
        match foia_updated(foia_view(old(requests)@), args@) {
            Ok(v) => r matches Ok(prev) && foia_view(final(requests)@) == v
                && prev@ == foia_view(old(requests)@)[foia_update_index(foia_view(old(requests)@), args@)].status,
            Err(e) => r == Err::<String, FoiaError>(e) && final(requests)@ == old(requests)@,
        },
{
    let av = chars_of(args);
    if av.len() == 0 {
        return Err(FoiaError::Usage);
    }
    let (n, s) = match split_once_ws_exec(av.as_slice()) {
        Some(p) => p,
        None => return Err(FoiaError::MissingParts),
    };
    let nt = trim_vec(n.as_slice());
    let id = match parse_uint_exec(nt.as_slice(), u32::MAX as u64) {
        Some(x) => x as u32,
        None => return Err(FoiaError::InvalidNumber),
    };
    let st = trim_vec(s.as_slice());
    let st_text = string_of(st.as_slice());
    if !is_foia_status(st_text.as_str()) {
        return Err(FoiaError::InvalidStatus);
    }
    let k = match find_foia(requests, id) {
        Some(k) => k,
        None => return Err(FoiaError::NotFound),
    };
    proof {
        lemma_first_with_id(foia_view(requests@), id as nat, 0);
        reveal_strlit("연장");
    }
    let ghost before = foia_view(requests@);
    let mut req = requests.remove(k);
    let prev = string_of(chars_of(req.status.as_str()).as_slice());
    if eq_str(st.as_slice(), "연장") {
        match add_business_days(req.deadline_date.as_str(), 10) {
            Some(d) => {
                req.deadline_date = d;
            },
            None => {},
        }
    }
    req.status = st_text;
    let ghost rv = req@;
    requests.insert(k, req);
    assert(rv == with_status(before[k as int], st@));
    assert(foia_view(requests@) =~= before.update(k as int, rv));
    Ok(prev)
}

/// A request filed today is due ten business days on, at least ten calendar
/// days later, and so is not overdue on the day it is filed. Stated for the
/// date texts that `today_str` writes, up to the year 9999.
pub proof fn lemma_filed_not_overdue(n: int)
    requires
        0 <= n,
        civil(n).0 <= 9999,
        civil(add_weekdays(n, 10)).0 <= 9999,
    ensures
        foia_deadline(epoch_date_text(n)) == epoch_date_text(add_weekdays(n, 10)),
        days_between(epoch_date_text(n), foia_deadline(epoch_date_text(n))) matches Some(d) && d >= 10,
        !foia_overdue("접수"@, foia_deadline(epoch_date_text(n)), epoch_date_text(n)),
{
    lemma_date_text_parses(n);
    lemma_civil_roundtrip(n);
    lemma_add_weekdays_bounds(n, 10);
    lemma_days_between_written(n, add_weekdays(n, 10));
    reveal_strlit("접수");
    reveal_strlit("응답완료");
    reveal_strlit("거부");
}

/// Reading the request's deadline against `today` stays in bounds.
pub open spec fn deadline_fits(r: FoiaRequestV, today: Seq<char>) -> bool {
    text_day_total_fits(r.deadline_date) && (text_day_total(r.deadline_date) is Some
        ==> text_day_total_fits(today))
}

/// The line `/foia list` prints for a request on `today`.
pub open spec fn foia_list_line_text(r: FoiaRequestV, today: Seq<char>) -> Seq<char> {
    let done = foia_done(r.status);
    let overdue = foia_overdue(r.status, r.deadline_date, today);
    let icon = if done {
        GREEN@ + "✅"@ + RESET@
    } else if overdue {
        RED@ + "🔴"@ + RESET@
    } else {
        YELLOW@ + "⏳"@ + RESET@
    };
    let status = if overdue && !done {
        RED@ + r.status + RESET@
    } else if done {
        GREEN@ + r.status + RESET@
    } else {
        r.status
    };
    "  "@ + icon + " ["@ + dec(r.id as nat) + "] "@ + r.agency + " — "@ + r.content + " ["@ + status
        + "] (기한: "@ + r.deadline_date + ")"@
}

/// The line `/foia list` prints for a request on `today`.
pub fn foia_list_line(req: &FoiaRequest, today: &str) -> (r: String)
    requires
        !foia_done(req.status@) ==> deadline_fits(req@, today@),
    ensures
        r@ == foia_list_line_text(req@, today@),
{
    let overdue = is_foia_overdue(req, today);
    let done = is_foia_done(req.status.as_str());
    let mut out = chars_of("  ");
    if done {
        push_str(&mut out, GREEN);
        push_str(&mut out, "✅");
    } else if overdue {
        push_str(&mut out, RED);
        push_str(&mut out, "🔴");
    } else {
        push_str(&mut out, YELLOW);
        push_str(&mut out, "⏳");
    }
    push_str(&mut out, RESET);
    push_str(&mut out, " [");
    push_dec(&mut out, req.id as u64);
    push_str(&mut out, "] ");
    push_str(&mut out, req.agency.as_str());
    push_str(&mut out, " — ");
    push_str(&mut out, req.content.as_str());
    push_str(&mut out, " [");
    if overdue && !done {
        push_str(&mut out, RED);
        push_str(&mut out, req.status.as_str());
        push_str(&mut out, RESET);
    } else if done {
        push_str(&mut out, GREEN);
        push_str(&mut out, req.status.as_str());
        push_str(&mut out, RESET);
    } else {
        push_str(&mut out, req.status.as_str());
    }
    push_str(&mut out, "] (기한: ");
    push_str(&mut out, req.deadline_date.as_str());
    push_str(&mut out, ")");
    assert(out@ =~= foia_list_line_text(req@, today@));
    string_of(out.as_slice())
}

/// Days from the first date to the second, or 0 when either is not a date.
pub open spec fn days_or_zero(start: Seq<char>, end: Seq<char>) -> int {
    match days_between(start, end) {
        Some(d) => d,
        None => 0,
    }
}

/// Reading both the filing date and the deadline against `today` stays in
/// bounds.
pub open spec fn detail_fits(r: FoiaRequestV, today: Seq<char>) -> bool {
    &&& deadline_fits(r, today)
    &&& text_day_total_fits(today)
    &&& text_day_total(today) is Some ==> text_day_total_fits(r.filed_date)
}

/// What `/foia status <num>` prints for a request on `today`.
pub open spec fn foia_detail_text(r: FoiaRequestV, today: Seq<char>) -> Seq<char> {
    let elapsed = days_or_zero(r.filed_date, today);
    let remaining = days_or_zero(today, r.deadline_date);
    BOLD@ + "  📋 정보공개청구 #"@ + dec(r.id as nat) + RESET@ + "\n     기관: "@ + r.agency
        + "\n     내용: "@ + r.content + "\n     상태: "@ + r.status + "\n     접수일: "@
        + r.filed_date + "\n     응답기한: "@ + r.deadline_date + "\n     경과일: "@ + dec_signed(
        elapsed,
    ) + "일\n"@ + if foia_done(r.status) {
        "     "@ + GREEN@ + "완료됨"@ + RESET@
    } else if foia_overdue(r.status, r.deadline_date, today) {
        "     "@ + RED@ + "⚠ 기한 초과 ("@ + dec((-remaining) as nat) + "일)"@ + RESET@
    } else {
        "     남은 기한: "@ + dec_signed(remaining) + "일"@
    } + "\n"@
}

/// What `/foia status <num>` prints for a request on `today`: its fields,
/// the days since filing, and how it stands against its deadline.
pub fn foia_detail(req: &FoiaRequest, today: &str) -> (r: String)
    requires
        detail_fits(req@, today@),
    ensures
        r@ == foia_detail_text(req@, today@),
{
    let elapsed: i64 = match calendar_days_between(req.filed_date.as_str(), today) {
        Some(d) => d,
        None => 0,
    };
    let remaining: i64 = match calendar_days_between(today, req.deadline_date.as_str()) {
        Some(d) => d,
        None => 0,
    };
    let overdue = is_foia_overdue(req, today);
    let done = is_foia_done(req.status.as_str());
    let mut out: Vec<char> = Vec::new();
    push_str(&mut out, BOLD);
    push_str(&mut out, "  📋 정보공개청구 #");
    push_dec(&mut out, req.id as u64);
    push_str(&mut out, RESET);
    push_str(&mut out, "\n     기관: ");
    push_str(&mut out, req.agency.as_str());
    push_str(&mut out, "\n     내용: ");
    push_str(&mut out, req.content.as_str());
    push_str(&mut out, "\n     상태: ");
    push_str(&mut out, req.status.as_str());
    push_str(&mut out, "\n     접수일: ");
    push_str(&mut out, req.filed_date.as_str());
    push_str(&mut out, "\n     응답기한: ");
    push_str(&mut out, req.deadline_date.as_str());
    push_str(&mut out, "\n     경과일: ");
    push_dec_signed(&mut out, elapsed);
    push_str(&mut out, "일\n");
    if done {
        push_str(&mut out, "     ");
        push_str(&mut out, GREEN);
        push_str(&mut out, "완료됨");
        push_str(&mut out, RESET);
    } else if overdue {
        push_str(&mut out, "     ");
        push_str(&mut out, RED);
        push_str(&mut out, "⚠ 기한 초과 (");
        let late: u64 = (0i128 - remaining as i128) as u64;
        push_dec(&mut out, late);
        push_str(&mut out, "일)");
        push_str(&mut out, RESET);
    } else {
        push_str(&mut out, "     남은 기한: ");
        push_dec_signed(&mut out, remaining);
        push_str(&mut out, "일");
    }
    push_str(&mut out, "\n");
    assert(out@ =~= foia_detail_text(req@, today@));
    string_of(out.as_slice())
}

/// An open request (not answered or refused) whose deadline has passed,
/// or comes within three days.
pub open spec fn foia_late(r: FoiaRequestV, today: Seq<char>) -> bool {
    !foia_done(r.status) && days_or_zero(today, r.deadline_date) < 0
}

pub open spec fn foia_imminent(r: FoiaRequestV, today: Seq<char>) -> bool {
    !foia_done(r.status) && 0 <= days_or_zero(today, r.deadline_date) <= 3
}

/// The open requests among the first `n` that are overdue, with the days
/// left (negative), in order.
pub open spec fn late_list(v: Seq<FoiaRequestV>, today: Seq<char>, n: int) -> Seq<(usize, i64)>
    decreases n,
{
    if n <= 0 {
        seq![]
    } else if foia_late(v[n - 1], today) {
        late_list(v, today, n - 1).push(((n - 1) as usize, days_or_zero(today, v[n - 1].deadline_date) as i64))
    } else {
        late_list(v, today, n - 1)
    }
}

/// The open requests among the first `n` due within three days, with the
/// days left, in order.
pub open spec fn imminent_list(v: Seq<FoiaRequestV>, today: Seq<char>, n: int) -> Seq<(usize, i64)>
    decreases n,
{
    if n <= 0 {
        seq![]
    } else if foia_imminent(v[n - 1], today) {
        imminent_list(v, today, n - 1).push(((n - 1) as usize, days_or_zero(today, v[n - 1].deadline_date) as i64))
    } else {
        imminent_list(v, today, n - 1)
    }
}

/// Every open request's deadline can be read against `today`.
pub open spec fn open_deadlines_fit(v: Seq<FoiaRequestV>, today: Seq<char>) -> bool {
    forall|i: int| 0 <= i < v.len() && !foia_done(#[trigger] v[i].status) ==> deadline_fits(v[i], today)
}

/// What `/foia remind` reports: the overdue requests and those due within
/// three days, each as its index with the days left.
pub fn foia_reminders(requests: &Vec<FoiaRequest>, today: &str) -> (r: (Vec<(usize, i64)>, Vec<(usize, i64)>))
    requires
        open_deadlines_fit(foia_view(requests@), today@),
    ensures
        r.0@ == late_list(foia_view(requests@), today@, requests@.len() as int),
        r.1@ == imminent_list(foia_view(requests@), today@, requests@.len() as int),
{
    let ghost v = foia_view(requests@);
    let mut late: Vec<(usize, i64)> = Vec::new();
    let mut soon: Vec<(usize, i64)> = Vec::new();
    let mut i: usize = 0;
    while i < requests.len()
        invariant
            i <= requests@.len(),
            v == foia_view(requests@),
            open_deadlines_fit(v, today@),
            late@ == late_list(v, today@, i as int),
            soon@ == imminent_list(v, today@, i as int),
        decreases requests@.len() - i,
    {
        if !is_foia_done(requests[i].status.as_str()) {
            assert(!foia_done(v[i as int].status));
            let remaining: i64 = match calendar_days_between(today, requests[i].deadline_date.as_str()) {
                Some(d) => d,
                None => 0,
            };
            if remaining < 0 {
                late.push((i, remaining));
            } else if remaining <= 3 {
                soon.push((i, remaining));
            }
        }
        i += 1;
    }
    (late, soon)
}

} // verus!
