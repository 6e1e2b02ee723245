//! `/contact`: the log of contacts with sources: recording one, a source's
//! history, the last week's contacts, and sources not contacted for 30 days.
use vstd::prelude::*;
use crate::editorial::opt_view;
use crate::prompts::{logs_view, ContactLogV};
use crate::sources::{sources_view, text_or_empty, Source, SourceV};
use crate::style::{DIM, RESET};
use crate::text::{chars_of, dec, push_dec, push_str, string_of};
use crate::tracking::{
    contact_log_args, last_contact_secs, latest_secs, parse_contact_log_args, parse_timestamp_secs,
    stale_contact, stale_since, ts_fits, ts_secs, ContactLog,
};

verus! {

/// Why a `/contact log` was refused.
#[derive(Debug, Clone, Copy, PartialEq, Eq, Structural)]
pub enum ContactError {
    /// No arguments were given.
    Usage,
    /// The name or the summary is missing.
    MissingParts,
}

/// What `/contact log <args>` records at time `now`.
pub open spec fn contact_logged(args: Seq<char>, now: Seq<char>) -> Result<ContactLogV, ContactError> {
    if args.len() == 0 {
        Err(ContactError::Usage)
    } else {
        let (name, summary) = contact_log_args(args);
        if name.len() == 0 || summary.len() == 0 {
            Err(ContactError::MissingParts)
        } else {
            Ok(ContactLogV { name, summary, timestamp: now })
        }
    }
}

/// The log entry `/contact log <args>` records at time `now`.
pub fn new_contact_log(args: &str, now: &str) -> (r: Result<ContactLog, ContactError>)
    ensures
        match contact_logged(args@, now@) {
            Ok(l) => r matches Ok(x) && x.name@ == l.name && x.summary@ == l.summary && x.timestamp@
                == l.timestamp,
            Err(e) => r matches Err(x) && x == e,
        },
{
    if chars_of(args).len() == 0 {
        return Err(ContactError::Usage);
    }
    let (name, summary) = parse_contact_log_args(args);
    if chars_of(name.as_str()).len() == 0 || chars_of(summary.as_str()).len() == 0 {
        return Err(ContactError::MissingParts);
    }
    Ok(ContactLog { name, summary, timestamp: string_of(chars_of(now).as_slice()) })
}

/// One entry of a source's history: `  [<time>] <summary>`.
pub open spec fn history_lines(v: Seq<ContactLogV>, k: int) -> Seq<char>
    decreases k,
{
    if k <= 0 {
        seq![]
    } else {
        history_lines(v, k - 1) + "  ["@ + v[k - 1].timestamp + "] "@ + v[k - 1].summary + "\n"@
    }
}

/// What `/contact history <name>` prints for a non-empty history.
pub open spec fn history_text(name: Seq<char>, v: Seq<ContactLogV>) -> Seq<char> {
    DIM@ + "  ── "@ + name + " 접촉 이력 ("@ + dec(v.len()) + " 건) ──\n"@ + history_lines(v, v.len() as int)
        + RESET@ + "\n"@
}

/// What `/contact history <name>` prints for the source's logs.
pub fn contact_history_text(name: &str, logs: &Vec<ContactLog>) -> (r: String)
    ensures
        r@ == history_text(name@, logs_view(logs@)),
{
    let ghost v = logs_view(logs@);
    let mut out: Vec<char> = Vec::new();
    push_str(&mut out, DIM);
    push_str(&mut out, "  ── ");
    push_str(&mut out, name);
    push_str(&mut out, " 접촉 이력 (");
    push_dec(&mut out, logs.len() as u64);
    push_str(&mut out, " 건) ──\n");
    let ghost head = out@;
    let mut i: usize = 0;
    while i < logs.len()
        invariant
            i <= logs@.len(),
            v == logs_view(logs@),
            out@ == head + history_lines(v, i as int),
        decreases logs@.len() - i,
    {
        push_str(&mut out, "  [");
        push_str(&mut out, logs[i].timestamp.as_str());
        push_str(&mut out, "] ");
        push_str(&mut out, logs[i].summary.as_str());
        push_str(&mut out, "\n");
        assert(out@ =~= head + history_lines(v, i + 1));
        i += 1;
    }
    push_str(&mut out, RESET);
    push_str(&mut out, "\n");
    assert(out@ =~= history_text(name@, v));
    string_of(out.as_slice())
}

/// The start of the last seven days before `now` (0 when `now` is earlier).
pub open spec fn week_cutoff(now: nat) -> nat {
    if now >= 7 * 86400 {
        (now - 7 * 86400) as nat
    } else {
        0
    }
}

/// The logs among the first `k` whose time reads and is within the last
/// seven days before `now`, by index in order.
pub open spec fn recent_logs(v: Seq<ContactLogV>, now: nat, k: int) -> Seq<usize>
    decreases k,
{
    if k <= 0 {
        seq![]
    } else if ts_secs(v[k - 1].timestamp) matches Some(t) && t >= week_cutoff(now) {
        recent_logs(v, now, k - 1).push((k - 1) as usize)
    } else {
        recent_logs(v, now, k - 1)
    }
}

/// Every log's time can be read within `u64`.
pub open spec fn logs_fit(v: Seq<ContactLogV>) -> bool {
    forall|i: int| 0 <= i < v.len() ==> ts_fits(#[trigger] v[i].timestamp)
}

/// The contacts of the last seven days before `now` (seconds since the epoch).
pub fn recent_contacts(logs: &Vec<ContactLog>, now: u64) -> (r: Vec<usize>)
    requires
        logs_fit(logs_view(logs@)),
    ensures
        r@ == recent_logs(logs_view(logs@), now as nat, logs@.len() as int),
{
    let ghost v = logs_view(logs@);
    let cutoff: u64 = if now >= 7 * 86400 { now - 7 * 86400 } else { 0 };
    let mut out: Vec<usize> = Vec::new();
    let mut i: usize = 0;
    while i < logs.len()
        invariant
            i <= logs@.len(),
            v == logs_view(logs@),
            logs_fit(v),
            cutoff == week_cutoff(now as nat),
            out@ == recent_logs(v, now as nat, i as int),
        decreases logs@.len() - i,
    {
        assert(ts_fits(v[i as int].timestamp));
        assert(logs@[i as int].timestamp@ == v[i as int].timestamp);
        match parse_timestamp_secs(logs[i].timestamp.as_str()) {
            Some(t) => {
                if t >= cutoff {
                    out.push(i);
                }
            },
            None => {},
        }
        i += 1;
    }
    out
}

pub struct StaleRowV {
    pub name: Seq<char>,
    pub org: Seq<char>,
    pub since: Seq<char>,
}

/// The stale sources among the first `k`: each named source whose last
/// readable contact (in `stamps`) is 30 days or more before `now`, or that
/// has none, with its organisation and how long ago.
pub open spec fn stale_rows(ss: Seq<SourceV>, stamps: Seq<Seq<Seq<char>>>, now: nat, k: int) -> Seq<StaleRowV>
    decreases k,
{
    if k <= 0 {
        seq![]
    } else {
        let s = ss[k - 1];
        let name = text_or_empty(s.name);
        let rest = stale_rows(ss, stamps, now, k - 1);
        if name.len() == 0 {
            rest
        } else {
            match stale_since(latest_secs(stamps[k - 1]), now) {
                Some(since) => rest.push(StaleRowV { name, org: text_or_empty(s.org), since }),
                None => rest,
            }
        }
    }
}

pub open spec fn rows_view(v: Seq<(String, String, String)>) -> Seq<StaleRowV> {
    v.map_values(|r: (String, String, String)| StaleRowV { name: r.0@, org: r.1@, since: r.2@ })
}

pub open spec fn stamps_view(v: Seq<Vec<String>>) -> Seq<Seq<Seq<char>>> {
    v.map_values(|t: Vec<String>| t@.map_values(|s: String| s@))
}

fn text_of(o: &Option<String>) -> (r: String)
    ensures
        r@ == text_or_empty(opt_view(*o)),
{
    match o {
        Some(s) => string_of(chars_of(s.as_str()).as_slice()),
        None => {
            let e: Vec<char> = Vec::new();
            string_of(e.as_slice())
        },
    }
}

/// `/contact stale`: the sources not contacted for 30 days before `now`,
/// given each source's contact times (`stamps[i]` for `sources[i]`).
pub fn contact_stale_rows(sources: &Vec<Source>, stamps: &Vec<Vec<String>>, now: u64) -> (r: Vec<(String, String, String)>)
    requires
        stamps@.len() == sources@.len(),
        forall|i: int, j: int|
            0 <= i < stamps@.len() && 0 <= j < stamps@[i]@.len() ==> ts_fits(#[trigger] stamps@[i]@[j]@),
    ensures
        rows_view(r@) == stale_rows(sources_view(sources@), stamps_view(stamps@), now as nat, sources@.len() as int),
{
    let ghost sv = sources_view(sources@);
    let ghost tv = stamps_view(stamps@);
    let mut out: Vec<(String, String, String)> = Vec::new();
    assert(rows_view(out@) =~= Seq::<StaleRowV>::empty());
    let mut i: usize = 0;
    while i < sources.len()
        invariant
            i <= sources@.len(),
            stamps@.len() == sources@.len(),
            sv == sources_view(sources@),
            tv == stamps_view(stamps@),
            forall|a: int, b: int|
                0 <= a < stamps@.len() && 0 <= b < stamps@[a]@.len() ==> ts_fits(#[trigger] stamps@[a]@[b]@),
            rows_view(out@) == stale_rows(sv, tv, now as nat, i as int),
        decreases sources@.len() - i,
    {
        let s = &sources[i];
        assert(s@ == sv[i as int]);
        let name = text_of(&s.name);
        if chars_of(name.as_str()).len() > 0 {
            let ts = &stamps[i];
            assert(ts@.map_values(|x: String| x@) == tv[i as int]);
            assert forall|j: int| 0 <= j < ts@.len() implies ts_fits(#[trigger] ts@[j]@) by {
                assert(ts_fits(stamps@[i as int]@[j]@));
            }
            let last = last_contact_secs(ts);
            match stale_contact(last, now) {
                Some(since) => {
                    let ghost before = rows_view(out@);
                    let org = text_of(&s.org);
                    let ghost row = StaleRowV { name: name@, org: org@, since: since@ };
                    out.push((name, org, since));
                    assert(rows_view(out@) =~= before.push(row));
                },
                None => {},
            }
        }
        i += 1;
    }
    out
}

} // verus!
