//! `/alert`: keywords watched for breaking news, and what a check of them
//! looks up and shows.
use vstd::prelude::*;
use vstd::utf8::encode_utf8;
use crate::data::{url_enc, url_encode};
use crate::editorial::opt_view;
use crate::style::{BOLD, DIM, RESET};
use crate::text::{
    chars_of, dec, eq_exec, parse_uint, parse_uint_exec, push_dec, push_str, string_of, trim,
    trim_vec,
};

verus! {

/// The file holding the watched keywords.
pub const ALERTS_FILE: &'static str = ".journalist/alerts.json";

/// A watched keyword as stored: its `keyword` and `created` texts, each
/// absent when the stored entry has no such text.
#[derive(Debug, Clone)]
pub struct Alert {
    pub keyword: Option<String>,
    pub created: Option<String>,
}

pub struct AlertV {
    pub keyword: Option<Seq<char>>,
    pub created: Option<Seq<char>>,
}

impl View for Alert {
    type V = AlertV;

    open spec fn view(&self) -> AlertV {
        AlertV { keyword: opt_view(self.keyword), created: opt_view(self.created) }
    }
}

pub open spec fn alerts_view(v: Seq<Alert>) -> Seq<AlertV> {
    v.map_values(|a: Alert| a@)
}

/// Why an `/alert` request was refused.
#[derive(Debug, Clone, Copy, PartialEq, Eq, Structural)]
pub enum AlertError {
    /// The keyword is already watched.
    Duplicate,
    /// The number is not a whole number from 1 up.
    InvalidNumber,
    /// The number is beyond the last keyword.
    OutOfRange,
}

/// Some watched entry has exactly this keyword.
pub open spec fn watches(v: Seq<AlertV>, k: Seq<char>) -> bool {
    exists|i: int| 0 <= i < v.len() && (#[trigger] v[i]).keyword == Some(k)
}

/// The entry `/alert add <keyword>` adds at time `created`.
pub open spec fn alert_added(v: Seq<AlertV>, keyword: Seq<char>, created: Seq<char>) -> Result<AlertV, AlertError> {
    if watches(v, trim(keyword)) {
        Err(AlertError::Duplicate)
    } else {
        Ok(AlertV { keyword: Some(trim(keyword)), created: Some(created) })
    }
}

/// The entry `/alert add <keyword>` adds at time `created`: the trimmed
/// keyword, unless it is already watched.
pub fn new_alert(alerts: &Vec<Alert>, keyword: &str, created: &str) -> (r: Result<Alert, AlertError>)
    ensures
        match alert_added(alerts_view(alerts@), keyword@, created@) {
            Ok(a) => r matches Ok(x) && x@ == a,
            Err(e) => r == Err::<Alert, AlertError>(e),
        },
{
    let k = trim_vec(chars_of(keyword).as_slice());
    let ghost v = alerts_view(alerts@);
    let mut i: usize = 0;
    while i < alerts.len()
        invariant
            i <= alerts@.len(),
            v == alerts_view(alerts@),
            k@ == trim(keyword@),
            forall|j: int| 0 <= j < i ==> v[j].keyword != Some(k@),
        decreases alerts@.len() - i,
    {
        match &alerts[i].keyword {
            Some(w) => {
                let wv = chars_of(w.as_str());
                if eq_exec(wv.as_slice(), k.as_slice()) {
                    assert(v[i as int].keyword == Some(k@));
                    assert(watches(v, trim(keyword@)));
                    return Err(AlertError::Duplicate);
                }
            },
            None => {},
        }
        i += 1;
    }
    Ok(
        Alert {
            keyword: Some(string_of(k.as_slice())),
            created: Some(string_of(chars_of(created).as_slice())),
        },
    )
}

/// What `/alert remove <num>` does to the watched entries `v`.
pub open spec fn alert_removed(v: Seq<AlertV>, num: Seq<char>) -> Result<Seq<AlertV>, AlertError> {
    match parse_uint(num, usize::MAX as nat) {
        None => Err(AlertError::InvalidNumber),
        Some(n) => if n < 1 {
            Err(AlertError::InvalidNumber)
        } else if n > v.len() {
            Err(AlertError::OutOfRange)
        } else {
            Ok(v.remove(n - 1))
        },
    }
}

/// Stop watching entry number `num`; returns the removed entry.
pub fn remove_alert(alerts: &mut Vec<Alert>, num: &str) -> (r: Result<Alert, AlertError>)
    ensures
        match alert_removed(alerts_view(old(alerts)@), num@) {
            Ok(v) => r matches Ok(a) && alerts_view(final(alerts)@) == v && a@ == alerts_view(
                old(alerts)@,
            )[parse_uint(num@, usize::MAX as nat)->0 - 1],
            Err(e) => r == Err::<Alert, AlertError>(e) && final(alerts)@ == old(alerts)@,
        },
{
    let n = match parse_uint_exec(chars_of(num).as_slice(), usize::MAX as u64) {
        Some(n) => n,
        None => return Err(AlertError::InvalidNumber),
    };
    if n < 1 {
        return Err(AlertError::InvalidNumber);
    }
    if n > alerts.len() as u64 {
        return Err(AlertError::OutOfRange);
    }
    let ghost before = alerts_view(alerts@);
    let a = alerts.remove((n - 1) as usize);
    assert(alerts_view(alerts@) =~= before.remove(n - 1));
    Ok(a)
}

/// The keyword an entry is shown by (`?` when it has none).
pub open spec fn alert_keyword(a: AlertV) -> Seq<char> {
    match a.keyword {
        Some(k) => k,
        None => "?"@,
    }
}

/// The Naver news search (newest first) for a keyword.
pub open spec fn naver_search_url_text(keyword: Seq<char>) -> Seq<char> {
    "https://search.naver.com/search.naver?where=news&query="@ + url_enc(encode_utf8(keyword))
        + "&sort=1&sm=tab_smr"@
}

/// The Naver news search `/alert check` fetches for a keyword.
pub fn naver_search_url(keyword: &str) -> (r: String)
    ensures
        r@ == naver_search_url_text(keyword@),
{
    let mut out = chars_of("https://search.naver.com/search.naver?where=news&query=");
    let e = url_encode(keyword);
    push_str(&mut out, e.as_str());
    push_str(&mut out, "&sort=1&sm=tab_smr");
    string_of(out.as_slice())
}

/// The keyword `/alert check` searches for an entry (`?` when it has none).
pub fn alert_keyword_of(a: &Alert) -> (r: String)
    ensures
        r@ == alert_keyword(a@),
{
    match &a.keyword {
        Some(k) => string_of(chars_of(k.as_str()).as_slice()),
        None => string_of(chars_of("?").as_slice()),
    }
}

/// The line `/alert list` prints for entry number `n`.
pub open spec fn alert_line_text(n: nat, a: AlertV) -> Seq<char> {
    DIM@ + "  "@ + dec(n) + ". "@ + alert_keyword(a) + "  (등록: "@ + match a.created {
        Some(c) => c,
        None => seq![],
    } + ")"@ + RESET@ + "\n"@
}

pub open spec fn alert_lines(v: Seq<AlertV>, k: int) -> Seq<char>
    decreases k,
{
    if k <= 0 {
        seq![]
    } else {
        alert_lines(v, k - 1) + alert_line_text(k as nat, v[k - 1])
    }
}

/// What `/alert list` prints for a non-empty list of entries.
pub open spec fn alert_list_text_of(v: Seq<AlertV>) -> Seq<char> {
    BOLD@ + "  모니터링 키워드 ("@ + dec(v.len()) + " 건)"@ + RESET@ + "\n"@ + DIM@
        + "  ─────────────────────────────"@ + RESET@ + "\n"@ + alert_lines(v, v.len() as int) + "\n"@
}

fn push_alert_line(out: &mut Vec<char>, n: usize, a: &Alert)
    ensures
        final(out)@ == old(out)@ + alert_line_text(n as nat, a@),
{
    let ghost start = out@;
    push_str(out, DIM);
    push_str(out, "  ");
    push_dec(out, n as u64);
    push_str(out, ". ");
    let k = alert_keyword_of(a);
    push_str(out, k.as_str());
    push_str(out, "  (등록: ");
    match &a.created {
        Some(c) => push_str(out, c.as_str()),
        None => {},
    }
    push_str(out, ")");
    push_str(out, RESET);
    push_str(out, "\n");
    assert(out@ =~= start + alert_line_text(n as nat, a@));
}

/// What `/alert list` prints for the watched entries (when there are some).
pub fn alert_list_text(alerts: &Vec<Alert>) -> (r: String)
    ensures
        r@ == alert_list_text_of(alerts_view(alerts@)),
{
    let ghost v = alerts_view(alerts@);
    let mut out: Vec<char> = Vec::new();
    push_str(&mut out, BOLD);
    push_str(&mut out, "  모니터링 키워드 (");
    push_dec(&mut out, alerts.len() as u64);
    push_str(&mut out, " 건)");
    push_str(&mut out, RESET);
    push_str(&mut out, "\n");
    push_str(&mut out, DIM);
    push_str(&mut out, "  ─────────────────────────────");
    push_str(&mut out, RESET);
    push_str(&mut out, "\n");
    let ghost head = out@;
    let mut i: usize = 0;
    while i < alerts.len()
        invariant
            i <= alerts@.len(),
            v == alerts_view(alerts@),
            out@ == head + alert_lines(v, i as int),
        decreases alerts@.len() - i,
    {
        push_alert_line(&mut out, i + 1, &alerts[i]);
        assert(out@ =~= head + alert_lines(v, i + 1));
        i += 1;
    }
    push_str(&mut out, "\n");
    assert(out@ =~= alert_list_text_of(v));
    string_of(out.as_slice())
}

pub open spec fn headline_lines(hs: Seq<Seq<char>>, k: int) -> Seq<char>
    decreases k,
{
    if k <= 0 {
        seq![]
    } else {
        headline_lines(hs, k - 1) + DIM@ + "    "@ + dec(k as nat) + ". "@ + hs[k - 1] + RESET@ + "\n"@
    }
}

/// What `/alert check` prints under a keyword for the headlines found.
pub open spec fn headlines_text_of(hs: Seq<Seq<char>>) -> Seq<char> {
    if hs.len() == 0 {
        DIM@ + "    검색 결과 없음"@ + RESET@ + "\n"@
    } else {
        headline_lines(hs, hs.len() as int)
    }
}

/// What `/alert check` prints under a keyword for the headlines found.
pub fn alert_headlines_text(headlines: &Vec<String>) -> (r: String)
    ensures
        r@ == headlines_text_of(headlines@.map_values(|h: String| h@)),
{
    let ghost hv = headlines@.map_values(|h: String| h@);
    let mut out: Vec<char> = Vec::new();
    if headlines.len() == 0 {
        push_str(&mut out, DIM);
        push_str(&mut out, "    검색 결과 없음");
        push_str(&mut out, RESET);
        push_str(&mut out, "\n");
        assert(out@ =~= headlines_text_of(hv));
        return string_of(out.as_slice());
    }
    let mut i: usize = 0;
    while i < headlines.len()
        invariant
            i <= headlines@.len(),
            hv == headlines@.map_values(|h: String| h@),
            out@ == headline_lines(hv, i as int),
        decreases headlines@.len() - i,
    {
        push_str(&mut out, DIM);
        push_str(&mut out, "    ");
        push_dec(&mut out, (i + 1) as u64);
        push_str(&mut out, ". ");
        push_str(&mut out, headlines[i].as_str());
        push_str(&mut out, RESET);
        push_str(&mut out, "\n");
        assert(out@ =~= headline_lines(hv, i + 1));
        i += 1;
    }
    string_of(out.as_slice())
}

} // verus!
