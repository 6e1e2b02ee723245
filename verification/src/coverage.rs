//! Breaking-news coverage claims: claiming a topic, releasing a claim, and
//! checking whether someone already covers a keyword.
use vstd::prelude::*;
use crate::editorial::{
    claims_view, coverage_claim_args, fits_i32, hhmm_fits, hhmm_minutes, is_valid_time, opt_view,
    parse_coverage_claim_args, time_diff, time_diff_minutes, valid_time, CoverageClaim,
    CoverageClaimV,
};
use crate::style::{GREEN, RED, RESET, YELLOW};
use crate::text::{
    all_ascii, ascii_lower, chars_of, contains, contains_exec, matches_at, dec, lower_text, parse_uint, parse_uint_exec, push_dec,
    push_str, string_of, to_lower,
};

verus! {

/// The reporter shown for a claim made without `--reporter`.
pub const UNASSIGNED_REPORTER: &'static str = "(미지정)";

/// Why a `/coverage` request was refused.
#[derive(Debug, Clone, Copy, PartialEq, Eq, Structural)]
pub enum CoverageError {
    /// Required arguments are missing.
    Usage,
    /// The claim names no topic.
    EmptyTopic,
    /// The `--until` value is not a valid `HH:MM`.
    InvalidTime,
    /// The number is not a whole number from 1 up.
    InvalidNumber,
    /// There is no claim with that number.
    NotFound,
    /// The claim is already inactive.
    AlreadyInactive,
}

/// What `/coverage claim <args>` creates at time `now`.
pub open spec fn claimed(args: Seq<char>, now: Seq<char>) -> Result<CoverageClaimV, CoverageError> {
    if args.len() == 0 {
        Err(CoverageError::Usage)
    } else {
        let (topic, reporter, until) = coverage_claim_args(args);
        if topic.len() == 0 {
            Err(CoverageError::EmptyTopic)
        } else if until matches Some(t) && !valid_time(t) {
            Err(CoverageError::InvalidTime)
        } else {
            Ok(
                CoverageClaimV {
                    topic,
                    reporter: if reporter.len() == 0 {
                        UNASSIGNED_REPORTER@
                    } else {
                        reporter
                    },
                    until,
                    active: true,
                    created_at: now,
                },
            )
        }
    }
}

pub open spec fn claim_result_view(r: Result<CoverageClaim, CoverageError>) -> Result<CoverageClaimV, CoverageError> {
    match r {
        Ok(c) => Ok(c@),
        Err(e) => Err(e),
    }
}

/// The claim `/coverage claim <args>` adds, created at `now`.
pub fn new_coverage_claim(args: &str, now: &str) -> (r: Result<CoverageClaim, CoverageError>)
    ensures
        claim_result_view(r) == claimed(args@, now@),
{
    let av = chars_of(args);
    if av.len() == 0 {
        return Err(CoverageError::Usage);
    }
    let (topic, reporter, until) = parse_coverage_claim_args(args);
    let tv = chars_of(topic.as_str());
    if tv.len() == 0 {
        return Err(CoverageError::EmptyTopic);
    }
    match &until {
        Some(t) => {
            if !is_valid_time(t.as_str()) {
                return Err(CoverageError::InvalidTime);
            }
        },
        None => {},
    }
    let rv = chars_of(reporter.as_str());
    let reporter_name = if rv.len() == 0 {
        string_of(chars_of(UNASSIGNED_REPORTER).as_slice())
    } else {
        reporter
    };
    let created_at = string_of(chars_of(now).as_slice());
    Ok(CoverageClaim { topic, reporter: reporter_name, until, active: true, created_at })
}

/// A 1-based claim number as `str::parse::<usize>` reads it, from 1 up.
pub open spec fn claim_number(s: Seq<char>) -> Option<nat> {
    match parse_uint(s, usize::MAX as nat) {
        Some(n) => if n >= 1 {
            Some(n)
        } else {
            None
        },
        None => None,
    }
}

/// What `/coverage release <num>` does to the claims `v`.
pub open spec fn released(v: Seq<CoverageClaimV>, num: Seq<char>) -> Result<Seq<CoverageClaimV>, CoverageError> {
    if num.len() == 0 {
        Err(CoverageError::Usage)
    } else {
        match claim_number(num) {
            None => Err(CoverageError::InvalidNumber),
            Some(n) => if n - 1 >= v.len() {
                Err(CoverageError::NotFound)
            } else if !v[n - 1].active {
                Err(CoverageError::AlreadyInactive)
            } else {
                Ok(v.update(n - 1, CoverageClaimV { active: false, ..v[n - 1] }))
            },
        }
    }
}

/// Release the claim numbered `num`; returns its topic.
pub fn release_claim(claims: &mut Vec<CoverageClaim>, num: &str) -> (r: Result<String, CoverageError>)
    ensures
        match released(claims_view(old(claims)@), num@) {
            Ok(v) => r matches Ok(topic) && claims_view(final(claims)@) == v
                && topic@ == v[claim_number(num@)->0 - 1].topic,
            Err(e) => r == Err::<String, CoverageError>(e) && final(claims)@ == old(claims)@,
        },
{
    let nv = chars_of(num);
    if nv.len() == 0 {
        return Err(CoverageError::Usage);
    }
    let n = match parse_uint_exec(nv.as_slice(), usize::MAX as u64) {
        Some(n) => n,
        None => return Err(CoverageError::InvalidNumber),
    };
    if n < 1 {
        return Err(CoverageError::InvalidNumber);
    }
    if n - 1 >= claims.len() as u64 {
        return Err(CoverageError::NotFound);
    }
    let k = (n - 1) as usize;
    if !claims[k].active {
        return Err(CoverageError::AlreadyInactive);
    }
    let ghost before = claims_view(claims@);
    let mut c = claims.remove(k);
    c.active = false;
    let topic = string_of(chars_of(c.topic.as_str()).as_slice());
    let ghost cv = c@;
    claims.insert(k, c);
    assert(claims_view(claims@) =~= before.update(k as int, cv));
    Ok(topic)
}

/// Whether a claim counts as covering `keyword`: it is active and its
/// lower-cased topic contains the lower-cased keyword.
pub open spec fn claim_covers(c: CoverageClaimV, keyword: Seq<char>) -> bool {
    c.active && contains(lower_text(c.topic), lower_text(keyword))
}

/// The indices, in order, of the claims among the first `n` that cover `keyword`.
pub open spec fn covering(v: Seq<CoverageClaimV>, keyword: Seq<char>, n: int) -> Seq<usize>
    decreases n,
{
    if n <= 0 {
        seq![]
    } else if claim_covers(v[n - 1], keyword) {
        covering(v, keyword, n - 1).push((n - 1) as usize)
    } else {
        covering(v, keyword, n - 1)
    }
}

/// The indices of the active claims whose topic contains `keyword`, ignoring case.
pub fn coverage_matches(claims: &Vec<CoverageClaim>, keyword: &str) -> (r: Vec<usize>)
    ensures
        r@ == covering(claims_view(claims@), keyword@, claims@.len() as int),
        all_ascii(keyword@) ==> forall|i: int|
            0 <= i < claims@.len() && (#[trigger] claims@[i]).active && all_ascii(claims@[i].topic@) && contains(
                claims@[i].topic@.map_values(|c: char| ascii_lower(c)),
                keyword@.map_values(|c: char| ascii_lower(c)),
            ) ==> r@.contains(i as usize),
{
    let kw = to_lower(keyword);
    let kv = chars_of(kw.as_str());
    let mut out: Vec<usize> = Vec::new();
    let mut i: usize = 0;
    while i < claims.len()
        invariant
            i <= claims@.len(),
            kv@ == lower_text(keyword@),
            all_ascii(keyword@) ==> kv@ == keyword@.map_values(|c: char| ascii_lower(c)),
            out@ == covering(claims_view(claims@), keyword@, i as int),
            forall|m: int|
                0 <= m < i && (#[trigger] claims@[m]).active && all_ascii(claims@[m].topic@) && contains(
                    claims@[m].topic@.map_values(|c: char| ascii_lower(c)),
                    kv@,
                ) ==> out@.contains(m as usize),
        decreases claims@.len() - i,
    {
        let ghost before = out@;
        if claims[i].active {
            let t = to_lower(claims[i].topic.as_str());
            let tv = chars_of(t.as_str());
            if contains_exec(tv.as_slice(), kv.as_slice()) {
                out.push(i);
                assert(out@[out@.len() - 1] == i);
            }
        }
        assert forall|m: int| 0 <= m <= i && #[trigger] before.contains(m as usize) implies out@.contains(m as usize) by {
            let k = choose|k: int| 0 <= k < before.len() && before[k] == m as usize;
            assert(out@[k] == before[k]);
        }
        i += 1;
    }
    out
}

/// A claim just made covers its own topic: checking that topic right after
/// claiming it finds the claim.
pub proof fn lemma_new_claim_covers_topic(args: Seq<char>, now: Seq<char>)
    requires
        claimed(args, now) is Ok,
    ensures
        claim_covers(claimed(args, now)->Ok_0, claimed(args, now)->Ok_0.topic),
{
    let c = claimed(args, now)->Ok_0;
    let l = lower_text(c.topic);
    assert(l.subrange(0, l.len() as int) =~= l);
    assert(matches_at(l, l, 0));
}

/// Releasing a claim is done once: a second release of the same number is
/// refused as already inactive, and nothing else changes.
pub proof fn lemma_release_twice(v: Seq<CoverageClaimV>, num: Seq<char>)
    requires
        released(v, num) is Ok,
    ensures
        released(released(v, num)->Ok_0, num) == Err::<Seq<CoverageClaimV>, CoverageError>(
            CoverageError::AlreadyInactive,
        ),
        released(v, num)->Ok_0.len() == v.len(),
        forall|i: int|
            0 <= i < v.len() && i != claim_number(num)->0 - 1 ==> released(v, num)->Ok_0[i] == v[i],
{
}

/// Computing the minutes left until `t` stays within `i32`.
pub open spec fn until_fits(t: Seq<char>, now: Seq<char>) -> bool {
    &&& hhmm_fits(t)
    &&& hhmm_minutes(t) is Some ==> hhmm_fits(now)
    &&& hhmm_minutes(t) matches Some(a) ==> (hhmm_minutes(now) matches Some(b) ==> fits_i32(a - b))
}

/// The expiry label of an active claim in `/coverage list`, coloured by how
/// close `t` is to `now`.
pub open spec fn until_label_text(t: Seq<char>, now: Seq<char>) -> Seq<char> {
    match time_diff(t, now) {
        Some(m) => if m < 0 {
            " "@ + RED@ + "[만료: "@ + t + " — 시간 초과]"@ + RESET@
        } else if m <= 30 {
            " "@ + YELLOW@ + "[만료: "@ + t + " — "@ + dec(m as nat) + "분 남음]"@ + RESET@
        } else {
            " "@ + GREEN@ + "[만료: "@ + t + " — "@ + dec(m as nat) + "분 남음]"@ + RESET@
        },
        None => " [만료: "@ + t + "]"@,
    }
}

/// The expiry label of a claim that runs until `t`, seen at `now`.
pub fn until_label(t: &str, now: &str) -> (r: String)
    requires
        until_fits(t@, now@),
    ensures
        r@ == until_label_text(t@, now@),
{
    let mut out: Vec<char> = Vec::new();
    match time_diff_minutes(t, now) {
        Some(m) => {
            if m < 0 {
                push_str(&mut out, " ");
                push_str(&mut out, RED);
                push_str(&mut out, "[만료: ");
                push_str(&mut out, t);
                push_str(&mut out, " — 시간 초과]");
                push_str(&mut out, RESET);
            } else {
                push_str(&mut out, " ");
                if m <= 30 {
                    push_str(&mut out, YELLOW);
                } else {
                    push_str(&mut out, GREEN);
                }
                push_str(&mut out, "[만료: ");
                push_str(&mut out, t);
                push_str(&mut out, " — ");
                push_dec(&mut out, m as u64);
                push_str(&mut out, "분 남음]");
                push_str(&mut out, RESET);
            }
        },
        None => {
            push_str(&mut out, " [만료: ");
            push_str(&mut out, t);
            push_str(&mut out, "]");
        },
    }
    assert(out@ =~= until_label_text(t@, now@));
    string_of(out.as_slice())
}

} // verus!
